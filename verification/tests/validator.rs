use aurora::helper::describe;
use aurora::helper::FileProbe;
use aurora::helper::flag_takes_value;
use aurora::helper::is_allowed_flag;
use aurora::helper::is_safe_pkg;
use aurora::helper::is_safe_pkgfile;
use aurora::helper::Operation;
use aurora::helper::parse_operation;
use aurora::helper::split_flag_value;
use aurora::helper::validate_flag_value;
use aurora::helper::validate_pacman;
use aurora::helper::ValidationError;
use aurora::helper::ValueError;
use aurora::helper::ValueFlag;

fn strings(items: &[&str]) -> Vec<String> {
    items.iter().map(|s| s.to_string()).collect()
}

fn check(items: &[&str]) -> Result<(), ValidationError> {
    validate_pacman(&strings(items), &[])
}

fn archive(path: &str) -> FileProbe {
    let name = path.rsplit('/').next().unwrap_or("").to_string();
    FileProbe { canonical: Some(path.to_string()), is_file: true, file_name: Some(name) }
}

fn missing() -> FileProbe {
    FileProbe { canonical: None, is_file: false, file_name: None }
}

#[test]
fn accepts_install_with_flag_before_package() {
    assert_eq!(check(&["-S", "--noconfirm", "curl"]), Ok(()));
}

#[test]
fn rejects_flag_after_package() {
    assert_eq!(check(&["-S", "curl", "--noconfirm"]), Err(ValidationError::FlagAfterPackage(2)));
}

#[test]
fn rejects_upgrade_with_package() {
    assert_eq!(check(&["-Syu", "curl"]), Err(ValidationError::UpgradeTakesPackages));
}

#[test]
fn rejects_empty_vector() {
    assert_eq!(check(&[]), Err(ValidationError::MissingArgs));
}

#[test]
fn rejects_unknown_operations() {
    for op in ["-Sy", "-R", "-Q", "pacman", "", "-s", "--sync", "-S ", "-Syuu"] {
        assert_eq!(check(&[op, "curl"]), Err(ValidationError::OperationNotAllowed), "{op:?}");
    }
}

#[test]
fn knows_the_four_operations() {
    assert_eq!(parse_operation("-S"), Some(Operation::Sync));
    assert_eq!(parse_operation("-Syu"), Some(Operation::Upgrade));
    assert_eq!(parse_operation("-Rns"), Some(Operation::Remove));
    assert_eq!(parse_operation("-U"), Some(Operation::LocalInstall));
    assert_eq!(parse_operation("-u"), None);
}

#[test]
fn accepts_upgrade_without_packages() {
    assert_eq!(check(&["-Syu"]), Ok(()));
    assert_eq!(check(&["-Syu", "--noconfirm"]), Ok(()));
}

#[test]
fn install_and_remove_need_a_package() {
    assert_eq!(check(&["-S"]), Err(ValidationError::NoPackages));
    assert_eq!(check(&["-Rns", "--noconfirm"]), Err(ValidationError::NoPackages));
    assert_eq!(check(&["-U"]), Err(ValidationError::NoPackageFiles));
    assert_eq!(check(&["-Rns", "vim"]), Ok(()));
}

#[test]
fn caps_the_number_of_packages() {
    let mut args = vec!["-S".to_string()];
    for i in 0..200 {
        args.push(format!("pkg{i}"));
    }
    assert_eq!(validate_pacman(&args, &[]), Ok(()));
    args.push("one-more".to_string());
    assert_eq!(validate_pacman(&args, &[]), Err(ValidationError::TooManyPackages));
}

#[test]
fn caps_the_number_of_package_files() {
    let mut args = vec!["-U".to_string()];
    let mut files = vec![missing()];
    for i in 0..201 {
        let path = format!("/tmp/p{i}.pkg.tar.zst");
        files.push(archive(&path));
        args.push(path);
    }
    assert_eq!(validate_pacman(&args, &files), Err(ValidationError::TooManyPackages));
    args.pop();
    files.pop();
    assert_eq!(validate_pacman(&args, &files), Ok(()));
}

#[test]
fn rejects_flags_that_are_not_listed() {
    assert_eq!(check(&["-S", "--force", "curl"]), Err(ValidationError::FlagNotAllowed(1)));
    assert_eq!(check(&["-S", "-y", "curl"]), Err(ValidationError::FlagNotAllowed(1)));
    assert_eq!(check(&["-S", "--noconfirm=1", "curl"]), Err(ValidationError::FlagNotAllowed(1)));
    assert_eq!(check(&["-S", "-", "curl"]), Err(ValidationError::FlagNotAllowed(1)));
    assert_eq!(check(&["-S", "--=x", "curl"]), Err(ValidationError::FlagNotAllowed(1)));
}

#[test]
fn accepts_every_allowed_flag() {
    assert_eq!(check(&["-S", "--noconfirm", "--needed", "--noprogressbar", "curl"]), Ok(()));
    assert!(is_allowed_flag("--needed"));
    assert!(!is_allowed_flag("--Needed"));
    assert!(!is_allowed_flag("--config"));
}

#[test]
fn value_flags_take_the_next_token() {
    assert_eq!(check(&["-S", "--color", "never", "curl"]), Ok(()));
    assert_eq!(check(&["-S", "--config", "/etc/pacman.conf", "curl"]), Ok(()));
    assert_eq!(check(&["-S", "--dbpath", "/var/lib/pacman", "--root", "/", "curl"]), Ok(()));
    assert_eq!(check(&["-S", "--sysroot", "/mnt", "--overwrite", "*", "curl"]), Ok(()));
}

#[test]
fn value_flags_take_an_equals_sign() {
    assert_eq!(check(&["-S", "--color=auto", "curl"]), Ok(()));
    assert_eq!(check(&["-S", "--config=/usr/share/p.conf", "curl"]), Ok(()));
    assert_eq!(check(&["-S", "--overwrite=a=b", "curl"]), Ok(()));
    assert_eq!(
        split_flag_value("--overwrite=a=b"),
        Some((ValueFlag::Overwrite, "a=b".to_string()))
    );
    assert_eq!(split_flag_value("--color"), None);
    assert_eq!(split_flag_value("--force=yes"), None);
    assert_eq!(split_flag_value("--root="), Some((ValueFlag::Root, String::new())));
}

#[test]
fn a_value_flag_needs_its_value() {
    assert_eq!(check(&["-S", "--color"]), Err(ValidationError::FlagRequiresValue(1)));
    assert_eq!(
        check(&["-S", "--color", "--noconfirm", "curl"]),
        Err(ValidationError::FlagRequiresValue(1))
    );
    assert_eq!(
        check(&["-S", "--noconfirm", "--root", "-x"]),
        Err(ValidationError::FlagRequiresValue(2))
    );
    assert!(flag_takes_value("--sysroot"));
    assert!(!flag_takes_value("--sysroot=/"));
}

#[test]
fn checks_each_value_by_its_flag() {
    let bad = |flag: ValueFlag, value: &str| validate_flag_value(flag, value);
    assert_eq!(bad(ValueFlag::Color, "always"), Ok(()));
    assert_eq!(bad(ValueFlag::Color, "auto"), Ok(()));
    assert_eq!(bad(ValueFlag::Color, "never"), Ok(()));
    assert_eq!(bad(ValueFlag::Color, "Always"), Err(ValueError::BadColor));
    assert_eq!(bad(ValueFlag::Config, "/etc/pacman.conf"), Ok(()));
    assert_eq!(bad(ValueFlag::Config, "/usr/x"), Ok(()));
    assert_eq!(bad(ValueFlag::Config, "/etc"), Err(ValueError::UnsafeConfigPath));
    assert_eq!(bad(ValueFlag::Config, "/home/me/evil.conf"), Err(ValueError::UnsafeConfigPath));
    assert_eq!(bad(ValueFlag::DbPath, "/x"), Ok(()));
    assert_eq!(bad(ValueFlag::DbPath, "x"), Err(ValueError::RelativePath));
    assert_eq!(bad(ValueFlag::Root, "./x"), Err(ValueError::RelativePath));
    assert_eq!(bad(ValueFlag::SysRoot, "~"), Err(ValueError::RelativePath));
    assert_eq!(bad(ValueFlag::Overwrite, &"x".repeat(512)), Ok(()));
    assert_eq!(bad(ValueFlag::Overwrite, &"x".repeat(513)), Err(ValueError::OverwriteTooLong));
}

#[test]
fn rejects_malformed_values_whatever_the_flag() {
    for flag in [
        ValueFlag::Config,
        ValueFlag::Color,
        ValueFlag::Overwrite,
        ValueFlag::DbPath,
        ValueFlag::Root,
        ValueFlag::SysRoot,
    ] {
        assert_eq!(validate_flag_value(flag, ""), Err(ValueError::Malformed));
        assert_eq!(validate_flag_value(flag, "/etc/a\0b"), Err(ValueError::Malformed));
        let long = format!("/etc/{}", "x".repeat(4092));
        assert_eq!(long.len(), 4097);
        assert_eq!(validate_flag_value(flag, &long), Err(ValueError::Malformed));
    }
    let fits = format!("/etc/{}", "x".repeat(4091));
    assert_eq!(fits.len(), 4096);
    assert_eq!(validate_flag_value(ValueFlag::Config, &fits), Ok(()));
}

#[test]
fn measures_values_in_bytes() {
    let wide = format!("/{}", "é".repeat(2048));
    assert_eq!(wide.len(), 4097);
    assert_eq!(validate_flag_value(ValueFlag::Root, &wide), Err(ValueError::Malformed));
    let pattern = "é".repeat(257);
    assert_eq!(validate_flag_value(ValueFlag::Overwrite, &pattern), Err(ValueError::OverwriteTooLong));
    assert_eq!(validate_flag_value(ValueFlag::Overwrite, &"é".repeat(256)), Ok(()));
}

#[test]
fn reports_a_bad_value_at_its_flag() {
    assert_eq!(
        check(&["-S", "--color", "blue", "curl"]),
        Err(ValidationError::InvalidFlagValue(1, ValueError::BadColor))
    );
    assert_eq!(
        check(&["-S", "--noconfirm", "--config=/home/x", "curl"]),
        Err(ValidationError::InvalidFlagValue(2, ValueError::UnsafeConfigPath))
    );
    assert_eq!(
        check(&["-S", "--root=", "curl"]),
        Err(ValidationError::InvalidFlagValue(1, ValueError::Malformed))
    );
}

#[test]
fn filters_package_names() {
    assert!(is_safe_pkg("curl"));
    assert!(is_safe_pkg("gtk+-3.0_x@y"));
    assert!(is_safe_pkg("A-Z09"));
    assert!(is_safe_pkg(&"a".repeat(128)));
    assert!(!is_safe_pkg(&"a".repeat(129)));
    assert!(!is_safe_pkg(""));
    for bad in ["a b", "a;b", "a/b", "a$b", "a\nb", "caf\u{e9}", "a=b", "a'b", "a\"b", "a\\b", "a*", "~a"] {
        assert!(!is_safe_pkg(bad), "{bad:?}");
    }
}

#[test]
fn rejects_unsafe_package_names() {
    assert_eq!(check(&["-S", "curl", "rm;ls"]), Err(ValidationError::InvalidPackageName(2)));
    assert_eq!(check(&["-S", ""]), Err(ValidationError::InvalidPackageName(1)));
    assert_eq!(check(&["-Syu", "a b"]), Err(ValidationError::InvalidPackageName(1)));
}

#[test]
fn the_first_fault_from_the_left_decides() {
    assert_eq!(
        check(&["-S", "bad name", "--noconfirm"]),
        Err(ValidationError::InvalidPackageName(1))
    );
    assert_eq!(
        check(&["-S", "curl", "--evil", "bad name"]),
        Err(ValidationError::FlagAfterPackage(2))
    );
    assert_eq!(check(&["-S", "--evil", "--color"]), Err(ValidationError::FlagNotAllowed(1)));
}

#[test]
fn a_value_that_looks_like_a_package_closes_nothing() {
    assert_eq!(check(&["-S", "--overwrite", "curl", "--noconfirm", "wget"]), Ok(()));
}

#[test]
fn accepts_package_files_by_their_probe() {
    let args = strings(&["-U", "--noconfirm", "pkg.pkg.tar.zst"]);
    let files = vec![missing(), missing(), archive("/home/me/pkg.pkg.tar.zst")];
    assert_eq!(validate_pacman(&args, &files), Ok(()));
}

#[test]
fn rejects_package_files_that_were_not_probed() {
    let args = strings(&["-U", "/tmp/a.pkg.tar.zst"]);
    assert_eq!(validate_pacman(&args, &[]), Err(ValidationError::InvalidPackageFile(1)));
    assert_eq!(validate_pacman(&args, &[missing()]), Err(ValidationError::InvalidPackageFile(1)));
}

#[test]
fn filters_package_files() {
    let good = archive("/tmp/a.pkg.tar.zst");
    assert!(is_safe_pkgfile("a.pkg.tar.zst", &good));
    assert!(is_safe_pkgfile("x", &archive("/home/u/b.pkg.tar.xz")));
    assert!(is_safe_pkgfile("x", &archive("/var/cache/pacman/pkg/c.pkg.tar.gz")));
    assert!(is_safe_pkgfile("x", &archive("/tmp/d.pkg.tar")));
    assert!(!is_safe_pkgfile("", &good));
    assert!(!is_safe_pkgfile(&"a".repeat(513), &good));
    assert!(is_safe_pkgfile(&"a".repeat(512), &good));
    assert!(!is_safe_pkgfile("x", &missing()));
    assert!(!is_safe_pkgfile("x", &archive("/etc/a.pkg.tar.zst")));
    assert!(!is_safe_pkgfile("x", &archive("/tmpx/a.pkg.tar.zst")));
    assert!(!is_safe_pkgfile("x", &archive("/home")));
    assert!(!is_safe_pkgfile("x", &archive("/tmp/a.tar.zst")));
    assert!(!is_safe_pkgfile("x", &archive("/tmp/a.pkg.tar.zst.sig")));
    let directory = FileProbe { is_file: false, ..archive("/tmp/a.pkg.tar.zst") };
    assert!(!is_safe_pkgfile("x", &directory));
    let nameless = FileProbe { file_name: None, ..archive("/tmp/a.pkg.tar.zst") };
    assert!(!is_safe_pkgfile("x", &nameless));
    let other_name = FileProbe {
        file_name: Some("a.txt".to_string()),
        ..archive("/tmp/a.pkg.tar.zst")
    };
    assert!(!is_safe_pkgfile("x", &other_name));
}

#[test]
fn install_from_files_takes_no_package_names() {
    let args = strings(&["-U", "curl"]);
    let files = vec![missing(), missing()];
    assert_eq!(validate_pacman(&args, &files), Err(ValidationError::InvalidPackageFile(1)));
}

#[test]
fn describes_each_fault() {
    let args = strings(&["-S", "--color", "blue", "--root=x", "bad name", "--config=/x", "-U"]);
    let say = |error: ValidationError| describe(error, &args);
    assert_eq!(say(ValidationError::MissingArgs), "missing pacman args");
    assert_eq!(say(ValidationError::OperationNotAllowed), "operation not allowed: -S");
    assert_eq!(say(ValidationError::FlagAfterPackage(6)), "flags after packages are not allowed");
    assert_eq!(say(ValidationError::FlagRequiresValue(1)), "flag requires value: --color");
    assert_eq!(
        say(ValidationError::InvalidFlagValue(1, ValueError::BadColor)),
        "invalid value for --color: blue"
    );
    assert_eq!(
        say(ValidationError::InvalidFlagValue(1, ValueError::Malformed)),
        "invalid value for --color"
    );
    assert_eq!(
        say(ValidationError::InvalidFlagValue(3, ValueError::RelativePath)),
        "path for --root must be absolute"
    );
    assert_eq!(
        say(ValidationError::InvalidFlagValue(5, ValueError::UnsafeConfigPath)),
        "unsafe --config path: /x"
    );
    assert_eq!(
        say(ValidationError::InvalidFlagValue(3, ValueError::OverwriteTooLong)),
        "invalid value for --overwrite"
    );
    assert_eq!(say(ValidationError::FlagNotAllowed(6)), "flag not allowed: -U");
    assert_eq!(say(ValidationError::InvalidPackageName(4)), "invalid package name: bad name");
    assert_eq!(say(ValidationError::InvalidPackageFile(4)), "invalid package file: bad name");
    assert_eq!(say(ValidationError::InvalidPackageFile(40)), "invalid package file: ");
    assert_eq!(say(ValidationError::NoPackages), "no packages supplied");
    assert_eq!(say(ValidationError::NoPackageFiles), "no package files supplied");
    assert_eq!(say(ValidationError::UpgradeTakesPackages), "-Syu does not accept packages");
    assert_eq!(say(ValidationError::TooManyPackages), "too many packages");
}

//! The gatekeeper that runs as root: it takes an argument vector for the
//! repository manager, accepts it only if every token is on a short list of
//! what is known to be harmless, and names the one command that may then run.

use vstd::prelude::*;
use vstd::string::*;

use crate::runner::CommandModel;
use crate::runner::CommandSpec;
use crate::runner::forced_env;
use crate::text::byte_len;
use crate::text::chars_of;
use crate::text::ends_with;
use crate::text::find_char;
use crate::text::same_text;
use crate::text::split_at_first;
use crate::text::split_once;
use crate::text::starts_with;
use crate::text::text_of;
use crate::text::texts;

verus! {

/// What the repository manager is asked to do.
#[derive(Debug, Clone, Copy, PartialEq, Eq, Structural)]
pub enum Operation {
    /// `-S`: install from the repositories.
    Sync,
    /// `-Syu`: upgrade the whole system.
    Upgrade,
    /// `-Rns`: remove, with unneeded dependencies and configuration.
    Remove,
    /// `-U`: install from package files.
    LocalInstall,
}

/// A flag that takes a value.
#[derive(Debug, Clone, Copy, PartialEq, Eq, Structural)]
pub enum ValueFlag {
    Config,
    Color,
    Overwrite,
    DbPath,
    Root,
    SysRoot,
}

/// Why the value of a flag is turned down.
#[derive(Debug, Clone, Copy, PartialEq, Eq, Structural)]
pub enum ValueError {
    /// Empty, longer than 4096 bytes, or with a NUL character in it.
    Malformed,
    /// Not one of the colour modes.
    BadColor,
    /// A configuration file outside `/etc/` and `/usr/`.
    UnsafeConfigPath,
    /// A path that does not start at the root.
    RelativePath,
    /// An overwrite pattern longer than 512 bytes.
    OverwriteTooLong,
}

/// Why an argument vector is rejected. Where a token is at fault the error
/// holds its index in the vector.
#[derive(Debug, Clone, Copy, PartialEq, Eq, Structural)]
pub enum ValidationError {
    MissingArgs,
    OperationNotAllowed,
    FlagAfterPackage(usize),
    FlagRequiresValue(usize),
    InvalidFlagValue(usize, ValueError),
    FlagNotAllowed(usize),
    InvalidPackageName(usize),
    InvalidPackageFile(usize),
    NoPackages,
    NoPackageFiles,
    UpgradeTakesPackages,
    TooManyPackages,
}

/// The most packages, or package files, that one invocation may name.
pub const MAX_PACKAGES: usize = 200;

/// The operation that the first token names, if it is one of the four.
pub open spec fn operation_of(token: Seq<char>) -> Option<Operation> {
    if token == "-S"@ {
        Some(Operation::Sync)
    } else if token == "-Syu"@ {
        Some(Operation::Upgrade)
    } else if token == "-Rns"@ {
        Some(Operation::Remove)
    } else if token == "-U"@ {
        Some(Operation::LocalInstall)
    } else {
        None
    }
}

/// Whether a token is a flag: it begins with `-`.
pub open spec fn is_flag(token: Seq<char>) -> bool {
    token.len() > 0 && token[0] == '-'
}

/// Whether a token is one of the flags without side effects.
pub open spec fn allowed_flag(token: Seq<char>) -> bool {
    token == "--noconfirm"@ || token == "--needed"@ || token == "--noprogressbar"@
}

/// The value-taking flag that a token names, if any.
pub open spec fn value_flag_of(token: Seq<char>) -> Option<ValueFlag> {
    if token == "--config"@ {
        Some(ValueFlag::Config)
    } else if token == "--color"@ {
        Some(ValueFlag::Color)
    } else if token == "--overwrite"@ {
        Some(ValueFlag::Overwrite)
    } else if token == "--dbpath"@ {
        Some(ValueFlag::DbPath)
    } else if token == "--root"@ {
        Some(ValueFlag::Root)
    } else if token == "--sysroot"@ {
        Some(ValueFlag::SysRoot)
    } else {
        None
    }
}

/// A token of the form `flag=value`, taken apart at its first `=`, where the
/// part before it names a value-taking flag.
pub open spec fn split_flag(token: Seq<char>) -> Option<(ValueFlag, Seq<char>)> {
    match split_at_first(token, '=') {
        Some((name, value)) => match value_flag_of(name) {
            Some(flag) => Some((flag, value)),
            None => None,
        },
        None => None,
    }
}

/// Why `value` is turned down as the value of `flag`, if it is.
pub open spec fn value_error(flag: ValueFlag, value: Seq<char>) -> Option<ValueError> {
    if value.len() == 0 || byte_len(value) > 4096 || value.contains('\0') {
        Some(ValueError::Malformed)
    } else {
        match flag {
            ValueFlag::Color => if value == "always"@ || value == "auto"@ || value == "never"@ {
                None
            } else {
                Some(ValueError::BadColor)
            },
            ValueFlag::Config => if "/etc/"@.is_prefix_of(value) || "/usr/"@.is_prefix_of(value) {
                None
            } else {
                Some(ValueError::UnsafeConfigPath)
            },
            ValueFlag::DbPath | ValueFlag::Root | ValueFlag::SysRoot => if value[0] == '/' {
                None
            } else {
                Some(ValueError::RelativePath)
            },
            ValueFlag::Overwrite => if byte_len(value) > 512 {
                Some(ValueError::OverwriteTooLong)
            } else {
                None
            },
        }
    }
}

/// Whether `c` may stand in a package name: an ASCII letter or digit, or one
/// of `+ - . _ @`.
pub open spec fn package_char(c: char) -> bool {
    ('a' <= c && c <= 'z') || ('A' <= c && c <= 'Z') || ('0' <= c && c <= '9') || c == '+' || c
        == '-' || c == '.' || c == '_' || c == '@'
}

/// Whether `name` is accepted as a package name: not empty, at most 128
/// characters, each of them a [`package_char`].
pub open spec fn safe_package_name(name: Seq<char>) -> bool {
    0 < name.len() <= 128 && forall|i: int| 0 <= i < name.len() ==> package_char(#[trigger] name[i])
}

/// What the file system says of a path.
#[derive(Debug, PartialEq, Eq)]
pub struct FileProbe {
    /// The path made absolute, with every symbolic link resolved; `None`
    /// when it does not resolve.
    pub canonical: Option<String>,
    /// Whether the resolved path is a regular file.
    pub is_file: bool,
    /// The last component of the resolved path, when it has one that is
    /// valid text.
    pub file_name: Option<String>,
}

/// What a [`FileProbe`] holds, as plain values.
pub struct FileProbeModel {
    pub canonical: Option<Seq<char>>,
    pub is_file: bool,
    pub file_name: Option<Seq<char>>,
}

impl View for FileProbe {
    type V = FileProbeModel;

    open spec fn view(&self) -> FileProbeModel {
        FileProbeModel {
            canonical: crate::models::option_text(self.canonical),
            is_file: self.is_file,
            file_name: crate::models::option_text(self.file_name),
        }
    }
}

/// The models of a sequence of probes.
pub open spec fn probe_models(v: Seq<FileProbe>) -> Seq<FileProbeModel> {
    Seq::new(v.len(), |i: int| v[i]@)
}

/// What is known of a path that was not probed: nothing, so it does not
/// resolve.
pub open spec fn unprobed() -> FileProbeModel {
    FileProbeModel { canonical: None, is_file: false, file_name: None }
}

/// The probe of the token at `index`.
pub open spec fn probe_at(files: Seq<FileProbeModel>, index: int) -> FileProbeModel {
    if 0 <= index < files.len() {
        files[index]
    } else {
        unprobed()
    }
}

/// Whether a resolved path lies in a directory from which package files are
/// taken: a home directory, the temporary directory, or the cache.
pub open spec fn in_package_directory(canonical: Seq<char>) -> bool {
    "/home/"@.is_prefix_of(canonical) || "/tmp/"@.is_prefix_of(canonical)
        || "/var/cache/"@.is_prefix_of(canonical)
}

/// Whether a file name ends like a package archive.
pub open spec fn archive_name(name: Seq<char>) -> bool {
    ".pkg.tar.zst"@.is_suffix_of(name) || ".pkg.tar.xz"@.is_suffix_of(name)
        || ".pkg.tar.gz"@.is_suffix_of(name) || ".pkg.tar"@.is_suffix_of(name)
}

/// Whether `path` is accepted as a package file: not empty and at most 512
/// bytes long; it resolves to a regular file in one of the package
/// directories, whose name ends like a package archive.
pub open spec fn safe_package_file(path: Seq<char>, probe: FileProbeModel) -> bool {
    &&& path.len() > 0
    &&& byte_len(path) <= 512
    &&& probe.canonical matches Some(canonical) && in_package_directory(canonical)
    &&& probe.is_file
    &&& probe.file_name matches Some(name) && archive_name(name)
}

/// The operation that `token` names, if it is one of the four.
pub fn parse_operation(token: &str) -> (r: Option<Operation>)
    ensures
        r == operation_of(token@),
{
    if same_text(token, "-S") {
        Some(Operation::Sync)
    } else if same_text(token, "-Syu") {
        Some(Operation::Upgrade)
    } else if same_text(token, "-Rns") {
        Some(Operation::Remove)
    } else if same_text(token, "-U") {
        Some(Operation::LocalInstall)
    } else {
        None
    }
}

/// Whether `flag` is one of the flags without side effects.
pub fn is_allowed_flag(flag: &str) -> (r: bool)
    ensures
        r == allowed_flag(flag@),
{
    same_text(flag, "--noconfirm") || same_text(flag, "--needed") || same_text(
        flag,
        "--noprogressbar",
    )
}

/// The value-taking flag that `flag` names, if any.
pub fn parse_value_flag(flag: &str) -> (r: Option<ValueFlag>)
    ensures
        r == value_flag_of(flag@),
{
    if same_text(flag, "--config") {
        Some(ValueFlag::Config)
    } else if same_text(flag, "--color") {
        Some(ValueFlag::Color)
    } else if same_text(flag, "--overwrite") {
        Some(ValueFlag::Overwrite)
    } else if same_text(flag, "--dbpath") {
        Some(ValueFlag::DbPath)
    } else if same_text(flag, "--root") {
        Some(ValueFlag::Root)
    } else if same_text(flag, "--sysroot") {
        Some(ValueFlag::SysRoot)
    } else {
        None
    }
}

/// Whether `flag` names a flag that takes a value.
pub fn flag_takes_value(flag: &str) -> (r: bool)
    ensures
        r == value_flag_of(flag@) is Some,
{
    parse_value_flag(flag).is_some()
}

/// Takes a token of the form `flag=value` apart at its first `=`. `None`
/// when there is no `=` or what stands before it names no value-taking flag.
pub fn split_flag_value(token: &str) -> (r: Option<(ValueFlag, String)>)
    ensures
        match r {
            Some((flag, value)) => split_flag(token@) == Some((flag, value@)),
            None => split_flag(token@) is None,
        },
{
    let chars = chars_of(token);
    match split_once(chars.as_slice(), '=') {
        None => None,
        Some((name, value)) => match parse_value_flag(text_of(name.as_slice()).as_str()) {
            None => None,
            Some(flag) => Some((flag, text_of(value.as_slice()))),
        },
    }
}

fn has_prefix(s: &Vec<char>, prefix: &str) -> (r: bool)
    ensures
        r == prefix@.is_prefix_of(s@),
{
    let p = chars_of(prefix);
    starts_with(s.as_slice(), p.as_slice())
}

fn has_suffix(s: &Vec<char>, suffix: &str) -> (r: bool)
    ensures
        r == suffix@.is_suffix_of(s@),
{
    let p = chars_of(suffix);
    ends_with(s.as_slice(), p.as_slice())
}

/// Checks `value` as the value of `flag`.
pub fn validate_flag_value(flag: ValueFlag, value: &str) -> (r: Result<(), ValueError>)
    ensures
        r == match value_error(flag, value@) {
            Some(error) => Err::<(), ValueError>(error),
            None => Ok::<(), ValueError>(()),
        },
{
    let chars = chars_of(value);
    let nul = find_char(chars.as_slice(), '\0');
    let bytes: usize = value.as_bytes().len();
    if chars.len() == 0 || bytes > 4096 || nul.is_some() {
        return Err(ValueError::Malformed);
    }
    match flag {
        ValueFlag::Color => {
            if same_text(value, "always") || same_text(value, "auto") || same_text(value, "never") {
                Ok(())
            } else {
                Err(ValueError::BadColor)
            }
        },
        ValueFlag::Config => {
            if has_prefix(&chars, "/etc/") || has_prefix(&chars, "/usr/") {
                Ok(())
            } else {
                Err(ValueError::UnsafeConfigPath)
            }
        },
        ValueFlag::DbPath | ValueFlag::Root | ValueFlag::SysRoot => {
            if chars[0] == '/' {
                Ok(())
            } else {
                Err(ValueError::RelativePath)
            }
        },
        ValueFlag::Overwrite => {
            if bytes > 512 {
                Err(ValueError::OverwriteTooLong)
            } else {
                Ok(())
            }
        },
    }
}

/// Whether `name` is accepted as a package name.
pub fn is_safe_pkg(name: &str) -> (r: bool)
    ensures
        r == safe_package_name(name@),
{
    let chars = chars_of(name);
    if chars.len() == 0 || chars.len() > 128 {
        return false;
    }
    let mut i: usize = 0;
    while i < chars.len()
        invariant
            i <= chars.len(),
            chars@ == name@,
            forall|k: int| 0 <= k < i ==> package_char(#[trigger] name@[k]),
        decreases chars.len() - i,
    {
        let c = chars[i];
        let ok = (c >= 'a' && c <= 'z') || (c >= 'A' && c <= 'Z') || (c >= '0' && c <= '9') || c
            == '+' || c == '-' || c == '.' || c == '_' || c == '@';
        if !ok {
            assert(!package_char(name@[i as int]));
            return false;
        }
        i += 1;
    }
    true
}

/// Whether `path` is accepted as a package file, given what the file system
/// says of it.
pub fn is_safe_pkgfile(path: &str, probe: &FileProbe) -> (r: bool)
    ensures
        r == safe_package_file(path@, probe@),
{
    if path.is_empty() || path.as_bytes().len() > 512 {
        return false;
    }
    let canonical = match &probe.canonical {
        Some(canonical) => chars_of(canonical.as_str()),
        None => {
            return false;
        },
    };
    if !probe.is_file {
        return false;
    }
    if !(has_prefix(&canonical, "/home/") || has_prefix(&canonical, "/tmp/") || has_prefix(
        &canonical,
        "/var/cache/",
    )) {
        return false;
    }
    match &probe.file_name {
        Some(name) => {
            let name = chars_of(name.as_str());
            has_suffix(&name, ".pkg.tar.zst") || has_suffix(&name, ".pkg.tar.xz") || has_suffix(
                &name,
                ".pkg.tar.gz",
            ) || has_suffix(&name, ".pkg.tar")
        },
        None => false,
    }
}


/// Whether the token at `index` is accepted as a package of `operation`: a
/// package file for an install from files, else a package name.
pub open spec fn safe_package(
    operation: Operation,
    args: Seq<Seq<char>>,
    files: Seq<FileProbeModel>,
    index: int,
) -> bool {
    if operation == Operation::LocalInstall {
        safe_package_file(args[index], probe_at(files, index))
    } else {
        safe_package_name(args[index])
    }
}

/// What a reader of the tokens expects next.
#[derive(Debug, Clone, Copy, PartialEq, Eq, Structural)]
pub enum ScanMode {
    /// Flags, until the first package.
    Flags,
    /// Packages only: the first package has been read.
    Packages,
}

/// Reads the tokens from `index` on, left to right, and returns the number
/// of packages accepted, `count` included, or the first fault.
///
/// While flags are expected, a flag is accepted if it is an allowed flag, a
/// value-taking flag followed by a token that is a valid value for it, or a
/// `flag=value` token with a valid value. The first token that is no flag
/// ends the flags: it and all that follow must be packages, and a flag
/// among them is a fault.
pub open spec fn scan(
    operation: Operation,
    args: Seq<Seq<char>>,
    files: Seq<FileProbeModel>,
    index: int,
    mode: ScanMode,
    count: nat,
) -> Result<nat, ValidationError>
    decreases args.len() - index,
{
    if index < 0 || index >= args.len() {
        Ok(count)
    } else if is_flag(args[index]) {
        if mode == ScanMode::Packages {
            Err(ValidationError::FlagAfterPackage(index as usize))
        } else if allowed_flag(args[index]) {
            scan(operation, args, files, index + 1, ScanMode::Flags, count)
        } else if value_flag_of(args[index]) is Some {
            if index + 1 >= args.len() || is_flag(args[index + 1]) {
                Err(ValidationError::FlagRequiresValue(index as usize))
            } else {
                match value_error(value_flag_of(args[index])->0, args[index + 1]) {
                    Some(error) => Err(ValidationError::InvalidFlagValue(index as usize, error)),
                    None => scan(operation, args, files, index + 2, ScanMode::Flags, count),
                }
            }
        } else {
            match split_flag(args[index]) {
                Some((flag, value)) => match value_error(flag, value) {
                    Some(error) => Err(ValidationError::InvalidFlagValue(index as usize, error)),
                    None => scan(operation, args, files, index + 1, ScanMode::Flags, count),
                },
                None => Err(ValidationError::FlagNotAllowed(index as usize)),
            }
        }
    } else if safe_package(operation, args, files, index) {
        scan(operation, args, files, index + 1, ScanMode::Packages, count + 1)
    } else if operation == Operation::LocalInstall {
        Err(ValidationError::InvalidPackageFile(index as usize))
    } else {
        Err(ValidationError::InvalidPackageName(index as usize))
    }
}

/// Why `count` packages are the wrong number for `operation`, if they are:
/// an install or a removal needs one at least, the upgrade of the system
/// takes none, and no operation takes more than [`MAX_PACKAGES`].
pub open spec fn count_error(operation: Operation, count: nat) -> Option<ValidationError> {
    if (operation == Operation::Sync || operation == Operation::Remove) && count == 0 {
        Some(ValidationError::NoPackages)
    } else if operation == Operation::LocalInstall && count == 0 {
        Some(ValidationError::NoPackageFiles)
    } else if operation == Operation::Upgrade && count > 0 {
        Some(ValidationError::UpgradeTakesPackages)
    } else if count > MAX_PACKAGES {
        Some(ValidationError::TooManyPackages)
    } else {
        None
    }
}

/// The verdict on an argument vector, with `files` as what the file system
/// says of each token: accepted, or the first fault found.
pub open spec fn validation(args: Seq<Seq<char>>, files: Seq<FileProbeModel>) -> Result<
    (),
    ValidationError,
> {
    if args.len() == 0 {
        Err(ValidationError::MissingArgs)
    } else {
        match operation_of(args[0]) {
            None => Err(ValidationError::OperationNotAllowed),
            Some(operation) => match scan(operation, args, files, 1, ScanMode::Flags, 0) {
                Err(error) => Err(error),
                Ok(count) => match count_error(operation, count) {
                    Some(error) => Err(error),
                    None => Ok(()),
                },
            },
        }
    }
}

fn starts_with_dash(token: &str) -> (r: bool)
    ensures
        r == is_flag(token@),
{
    if token.is_empty() {
        false
    } else {
        token.get_char(0) == '-'
    }
}

fn probe_of(files: &[FileProbe], index: usize) -> (r: Option<&FileProbe>)
    ensures
        match r {
            Some(probe) => probe@ == probe_at(probe_models(files@), index as int),
            None => probe_at(probe_models(files@), index as int) == unprobed(),
        },
{
    if index < files.len() {
        Some(&files[index])
    } else {
        None
    }
}

/// Validates an argument vector for the repository manager. `files` holds
/// what the file system says of each token, at the token's index; a token
/// without an entry counts as a path that does not resolve.
///
/// The vector is accepted when its first token is one of the four
/// operations, the flags that follow are all allowed and stand before the
/// first package, every package is a safe name (or, for an install from
/// files, a safe package file), and the number of packages suits the
/// operation. Else the first fault found from left to right is returned.
pub fn validate_pacman(args: &[String], files: &[FileProbe]) -> (r: Result<(), ValidationError>)
    ensures
        r == validation(texts(args@), probe_models(files@)),
{
    let ghost tokens = texts(args@);
    let ghost probes = probe_models(files@);
    if args.len() == 0 {
        return Err(ValidationError::MissingArgs);
    }
    let operation = match parse_operation(args[0].as_str()) {
        Some(operation) => operation,
        None => {
            return Err(ValidationError::OperationNotAllowed);
        },
    };
    let mut mode = ScanMode::Flags;
    let mut count: usize = 0;
    let mut i: usize = 1;
    while i < args.len()
        invariant
            1 <= i <= args.len(),
            count <= i,
            tokens == texts(args@),
            probes == probe_models(files@),
            operation_of(tokens[0]) == Some(operation),
            scan(operation, tokens, probes, i as int, mode, count as nat) == scan(
                operation,
                tokens,
                probes,
                1,
                ScanMode::Flags,
                0,
            ),
        decreases args.len() - i,
    {
        let arg = args[i].as_str();
        assert(tokens[i as int] == arg@);
        if starts_with_dash(arg) {
            match mode {
                ScanMode::Packages => {
                    return Err(ValidationError::FlagAfterPackage(i));
                },
                ScanMode::Flags => {},
            }
            if is_allowed_flag(arg) {
                i += 1;
                continue ;
            }
            match parse_value_flag(arg) {
                Some(flag) => {
                    if i + 1 >= args.len() {
                        return Err(ValidationError::FlagRequiresValue(i));
                    }
                    let value = args[i + 1].as_str();
                    assert(tokens[i + 1] == value@);
                    if starts_with_dash(value) {
                        return Err(ValidationError::FlagRequiresValue(i));
                    }
                    match validate_flag_value(flag, value) {
                        Err(error) => {
                            return Err(ValidationError::InvalidFlagValue(i, error));
                        },
                        Ok(()) => {},
                    }
                    i += 2;
                    continue ;
                },
                None => {},
            }
            match split_flag_value(arg) {
                Some((flag, value)) => {
                    match validate_flag_value(flag, value.as_str()) {
                        Err(error) => {
                            return Err(ValidationError::InvalidFlagValue(i, error));
                        },
                        Ok(()) => {},
                    }
                },
                None => {
                    return Err(ValidationError::FlagNotAllowed(i));
                },
            }
        } else {
            mode = ScanMode::Packages;
            match operation {
                Operation::LocalInstall => {
                    let safe = match probe_of(files, i) {
                        Some(probe) => is_safe_pkgfile(arg, probe),
                        None => false,
                    };
                    if !safe {
                        return Err(ValidationError::InvalidPackageFile(i));
                    }
                },
                _ => {
                    if !is_safe_pkg(arg) {
                        return Err(ValidationError::InvalidPackageName(i));
                    }
                },
            }
            count += 1;
        }
        i += 1;
    }
    let wrong_count = match operation {
        Operation::Sync | Operation::Remove => if count == 0 {
            Some(ValidationError::NoPackages)
        } else {
            None
        },
        Operation::LocalInstall => if count == 0 {
            Some(ValidationError::NoPackageFiles)
        } else {
            None
        },
        Operation::Upgrade => if count > 0 {
            Some(ValidationError::UpgradeTakesPackages)
        } else {
            None
        },
    };
    match wrong_count {
        Some(error) => Err(error),
        None => if count > MAX_PACKAGES {
            Err(ValidationError::TooManyPackages)
        } else {
            Ok(())
        },
    }
}


/// Where the flags end: the index of the first token from `index` on that
/// is neither a flag nor the value of the value-taking flag before it; the
/// length of the vector when there is none.
pub open spec fn flags_end(args: Seq<Seq<char>>, index: int) -> int
    decreases args.len() - index,
{
    if index < 0 || index >= args.len() {
        args.len() as int
    } else if !is_flag(args[index]) {
        index
    } else if !allowed_flag(args[index]) && value_flag_of(args[index]) is Some {
        if index + 1 < args.len() {
            flags_end(args, index + 2)
        } else {
            args.len() as int
        }
    } else {
        flags_end(args, index + 1)
    }
}

/// Whether the token at `index` is in order where flags are taken: an
/// allowed flag; a value-taking flag with a valid value behind it; a
/// `flag=value` token with a valid value; or the valid value of the
/// value-taking flag right before it.
pub open spec fn flag_in_order(args: Seq<Seq<char>>, index: int) -> bool {
    if is_flag(args[index]) {
        ||| allowed_flag(args[index])
        ||| (value_flag_of(args[index]) is Some && index + 1 < args.len() && !is_flag(
            args[index + 1],
        ) && value_error(value_flag_of(args[index])->0, args[index + 1]) is None)
        ||| (match split_flag(args[index]) {
            Some((flag, value)) => value_error(flag, value) is None,
            None => false,
        })
    } else {
        index >= 2 && value_flag_of(args[index - 1]) is Some && value_error(
            value_flag_of(args[index - 1])->0,
            args[index],
        ) is None
    }
}

proof fn lemma_scan_packages(
    operation: Operation,
    args: Seq<Seq<char>>,
    files: Seq<FileProbeModel>,
    index: int,
    count: nat,
)
    requires
        0 <= index <= args.len(),
        scan(operation, args, files, index, ScanMode::Packages, count) is Ok,
    ensures
        scan(operation, args, files, index, ScanMode::Packages, count) == Ok::<nat, ValidationError>(
            (count + args.len() - index) as nat,
        ),
        forall|j: int|
            index <= j < args.len() ==> !is_flag(#[trigger] args[j]) && safe_package(
                operation,
                args,
                files,
                j,
            ),
    decreases args.len() - index,
{
    if index < args.len() {
        lemma_scan_packages(operation, args, files, index + 1, count + 1);
    }
}

proof fn lemma_scan_flags(
    operation: Operation,
    args: Seq<Seq<char>>,
    files: Seq<FileProbeModel>,
    index: int,
    count: nat,
)
    requires
        1 <= index <= args.len(),
        scan(operation, args, files, index, ScanMode::Flags, count) is Ok,
    ensures
        index <= flags_end(args, index) <= args.len(),
        scan(operation, args, files, index, ScanMode::Flags, count) == Ok::<nat, ValidationError>(
            (count + args.len() - flags_end(args, index)) as nat,
        ),
        forall|j: int| index <= j < flags_end(args, index) ==> #[trigger] flag_in_order(args, j),
        forall|j: int|
            flags_end(args, index) <= j < args.len() ==> !is_flag(#[trigger] args[j])
                && safe_package(operation, args, files, j),
    decreases args.len() - index,
{
    if index < args.len() {
        if is_flag(args[index]) {
            if allowed_flag(args[index]) {
                lemma_scan_flags(operation, args, files, index + 1, count);
            } else if value_flag_of(args[index]) is Some {
                lemma_scan_flags(operation, args, files, index + 2, count);
                assert(flag_in_order(args, index));
                assert(flag_in_order(args, index + 1));
            } else {
                lemma_scan_flags(operation, args, files, index + 1, count);
            }
        } else {
            lemma_scan_packages(operation, args, files, index + 1, count + 1);
        }
    }
}

/// What every accepted vector looks like. It begins with one of the four
/// operations. Then come the flags, each of them in order. From the first
/// package on there is no flag any more, and every token is a safe package.
/// The number of packages suits the operation.
pub proof fn lemma_accepted_shape(args: Seq<Seq<char>>, files: Seq<FileProbeModel>)
    requires
        validation(args, files) is Ok,
    ensures
        args.len() > 0,
        operation_of(args[0]) is Some,
        1 <= flags_end(args, 1) <= args.len(),
        forall|j: int| 1 <= j < flags_end(args, 1) ==> #[trigger] flag_in_order(args, j),
        forall|j: int|
            flags_end(args, 1) <= j < args.len() ==> !is_flag(#[trigger] args[j]) && safe_package(
                operation_of(args[0])->0,
                args,
                files,
                j,
            ),
        count_error(operation_of(args[0])->0, (args.len() - flags_end(args, 1)) as nat) is None,
{
    lemma_scan_flags(operation_of(args[0])->0, args, files, 1, 0);
}

/// A flag behind a package is never accepted, whatever else the vector
/// holds: no flag is smuggled in among the packages.
pub proof fn lemma_flag_after_package_rejected(
    args: Seq<Seq<char>>,
    files: Seq<FileProbeModel>,
    package: int,
    flag: int,
)
    requires
        flags_end(args, 1) <= package < flag < args.len(),
        is_flag(args[flag]),
    ensures
        validation(args, files) is Err,
{
    if validation(args, files) is Ok {
        lemma_accepted_shape(args, files);
        assert(!is_flag(args[flag]));
    }
}

/// The upgrade of the whole system is accepted only without packages, an
/// install or a removal only with one at least, and nothing with more than
/// [`MAX_PACKAGES`].
pub proof fn lemma_package_counts(args: Seq<Seq<char>>, files: Seq<FileProbeModel>)
    requires
        validation(args, files) is Ok,
    ensures
        ({
            let packages = args.len() - flags_end(args, 1);
            &&& 0 <= packages <= MAX_PACKAGES
            &&& operation_of(args[0]) == Some(Operation::Upgrade) ==> packages == 0
            &&& operation_of(args[0]) != Some(Operation::Upgrade) ==> packages >= 1
        }),
{
    lemma_accepted_shape(args, files);
}

proof fn lemma_scan_without_files(
    operation: Operation,
    args: Seq<Seq<char>>,
    files: Seq<FileProbeModel>,
    others: Seq<FileProbeModel>,
    index: int,
    mode: ScanMode,
    count: nat,
)
    requires
        operation != Operation::LocalInstall,
    ensures
        scan(operation, args, files, index, mode, count) == scan(
            operation,
            args,
            others,
            index,
            mode,
            count,
        ),
    decreases args.len() - index,
{
    if 0 <= index < args.len() {
        lemma_scan_without_files(operation, args, files, others, index + 1, ScanMode::Flags, count);
        if index + 1 < args.len() {
            lemma_scan_without_files(operation, args, files, others, index + 2, ScanMode::Flags, count);
        }
        lemma_scan_without_files(operation, args, files, others, index + 1, ScanMode::Packages, count + 1);
    }
}

/// The file system has a say only where package files are installed: for
/// every other operation the verdict is the same whatever was probed.
pub proof fn lemma_files_matter_for_local_install_only(
    args: Seq<Seq<char>>,
    files: Seq<FileProbeModel>,
    others: Seq<FileProbeModel>,
)
    requires
        args.len() == 0 || operation_of(args[0]) != Some(Operation::LocalInstall),
    ensures
        validation(args, files) == validation(args, others),
{
    if args.len() > 0 && operation_of(args[0]) is Some {
        lemma_scan_without_files(operation_of(args[0])->0, args, files, others, 1, ScanMode::Flags, 0);
    }
}

/// Why the helper does not act.
#[derive(Debug, PartialEq, Eq)]
pub enum HelperError {
    /// The helper does not run as root.
    NotRoot,
    /// The command line names no target.
    NoCommand,
    /// The command line names a target that is not known.
    UnsupportedTarget(String),
    /// The argument vector for the repository manager is rejected.
    Rejected(ValidationError),
    /// The process table could not be read.
    ProbeFailed(String),
    /// Package managers are running; the names are given.
    PackageManagerActive(Vec<String>),
}

/// What a [`HelperError`] holds, as plain values.
pub enum HelperErrorModel {
    NotRoot,
    NoCommand,
    UnsupportedTarget(Seq<char>),
    Rejected(ValidationError),
    ProbeFailed(Seq<char>),
    PackageManagerActive(Seq<Seq<char>>),
}

impl View for HelperError {
    type V = HelperErrorModel;

    open spec fn view(&self) -> HelperErrorModel {
        match self {
            HelperError::NotRoot => HelperErrorModel::NotRoot,
            HelperError::NoCommand => HelperErrorModel::NoCommand,
            HelperError::UnsupportedTarget(target) => HelperErrorModel::UnsupportedTarget(target@),
            HelperError::Rejected(error) => HelperErrorModel::Rejected(*error),
            HelperError::ProbeFailed(error) => HelperErrorModel::ProbeFailed(error@),
            HelperError::PackageManagerActive(names) => HelperErrorModel::PackageManagerActive(
                texts(names@),
            ),
        }
    }
}

/// What the helper was called for.
#[derive(Debug, PartialEq, Eq)]
pub enum HelperRequest {
    /// Run the repository manager on this argument vector, once validated.
    Pacman(Vec<String>),
    /// Remove the stale lock file of the package database.
    ClearLock,
}

/// What a [`HelperRequest`] holds, as plain values.
pub enum RequestModel {
    Pacman(Seq<Seq<char>>),
    ClearLock,
}

impl View for HelperRequest {
    type V = RequestModel;

    open spec fn view(&self) -> RequestModel {
        match self {
            HelperRequest::Pacman(args) => RequestModel::Pacman(texts(args@)),
            HelperRequest::ClearLock => RequestModel::ClearLock,
        }
    }
}

/// Checks that the helper runs with the effective user id of root.
pub fn ensure_root(uid: u32) -> (r: Result<(), HelperError>)
    ensures
        uid == 0 ==> r is Ok,
        uid != 0 ==> r is Err && r->Err_0@ == HelperErrorModel::NotRoot,
{
    if uid != 0 {
        Err(HelperError::NotRoot)
    } else {
        Ok(())
    }
}

/// The argument vector for the repository manager behind the target: a
/// second `pacman` right behind the target is left out.
pub open spec fn pacman_arguments(rest: Seq<Seq<char>>) -> Seq<Seq<char>> {
    if rest.len() > 0 && rest[0] == "pacman"@ {
        rest.drop_first()
    } else {
        rest
    }
}

/// What the helper was called for, by its effective user id and its command
/// line without the program's own name.
pub open spec fn request(uid: u32, args: Seq<Seq<char>>) -> Result<RequestModel, HelperErrorModel> {
    if uid != 0 {
        Err(HelperErrorModel::NotRoot)
    } else if args.len() == 0 {
        Err(HelperErrorModel::NoCommand)
    } else if args[0] == "pacman"@ {
        Ok(RequestModel::Pacman(pacman_arguments(args.drop_first())))
    } else if args[0] == "clear-pacman-lock"@ {
        Ok(RequestModel::ClearLock)
    } else {
        Err(HelperErrorModel::UnsupportedTarget(args[0]))
    }
}

/// Reads the helper's command line, `args` being what follows the program's
/// own name, for a helper that runs with the effective user id `uid`.
///
/// Only root is served. The first argument is the target: `pacman`, with
/// the argument vector for the repository manager behind it, or
/// `clear-pacman-lock`.
pub fn run(uid: u32, args: Vec<String>) -> (r: Result<HelperRequest, HelperError>)
    ensures
        match r {
            Ok(found) => request(uid, texts(args@)) == Ok::<RequestModel, HelperErrorModel>(found@),
            Err(error) => request(uid, texts(args@)) == Err::<RequestModel, HelperErrorModel>(
                error@,
            ),
        },
{
    let ghost tokens = texts(args@);
    match ensure_root(uid) {
        Err(error) => {
            return Err(error);
        },
        Ok(()) => {},
    }
    if args.len() == 0 {
        return Err(HelperError::NoCommand);
    }
    assert(tokens[0] == args@[0]@);
    if same_text(args[0].as_str(), "pacman") {
        let skip: usize = if args.len() > 1 && same_text(args[1].as_str(), "pacman") {
            2
        } else {
            1
        };
        let mut rest: Vec<String> = Vec::new();
        let mut i: usize = skip;
        while i < args.len()
            invariant
                skip <= i <= args.len(),
                rest@.len() == i - skip,
                forall|k: int| 0 <= k < rest@.len() ==> rest@[k]@ == args@[k + skip]@,
            decreases args.len() - i,
        {
            rest.push(args[i].clone());
            i += 1;
        }
        proof {
            let behind = tokens.drop_first();
            if args.len() > 1 {
                assert(behind[0] == args@[1]@);
            }
            assert(texts(rest@) =~= pacman_arguments(behind));
        }
        Ok(HelperRequest::Pacman(rest))
    } else if same_text(args[0].as_str(), "clear-pacman-lock") {
        Ok(HelperRequest::ClearLock)
    } else {
        Err(HelperError::UnsupportedTarget(args[0].clone()))
    }
}

/// Decides on an argument vector for the repository manager: the command to
/// run when the vector is accepted, else why it is rejected.
///
/// The command of an accepted vector is the repository manager on exactly
/// that vector, token for token, in the neutral locale. A rejected vector
/// yields no command at all.
pub fn run_pacman(args: Vec<String>, files: &[FileProbe]) -> (r: Result<CommandSpec, HelperError>)
    ensures
        match r {
            Ok(command) => validation(texts(args@), probe_models(files@)) is Ok && command@ == (
            CommandModel { program: "pacman"@, args: texts(args@), env: forced_env() }),
            Err(error) => validation(texts(args@), probe_models(files@)) is Err && error@
                == HelperErrorModel::Rejected(
                validation(texts(args@), probe_models(files@))->Err_0,
            ),
        },
{
    match validate_pacman(args.as_slice(), files) {
        Err(error) => Err(HelperError::Rejected(error)),
        Ok(()) => Ok(CommandSpec::new("pacman", args)),
    }
}

/// What to do about the lock file.
#[derive(Debug, Clone, Copy, PartialEq, Eq, Structural)]
pub enum LockAction {
    /// There is no lock file: nothing to do.
    NothingToRemove,
    /// Remove the lock file.
    Remove,
}

/// The path of the lock file of the package database.
pub fn lock_file_path() -> (r: &'static str)
    ensures
        r@ == "/var/lib/pacman/db.lck"@,
{
    "/var/lib/pacman/db.lck"
}

/// Makes sure that no package manager is running, by what the process table
/// showed for each of [`crate::processes::package_managers`], in their order.
pub fn ensure_no_package_manager_running(probes: &[crate::processes::ProcessProbe]) -> (r: Result<
    (),
    HelperError,
>)
    ensures
        match crate::processes::running_among(
            crate::processes::package_manager_names(),
            crate::processes::probe_models(probes@),
            crate::processes::package_manager_names().len() as int,
        ) {
            Err(failure) => r is Err && r->Err_0@ == HelperErrorModel::ProbeFailed(failure.error),
            Ok(running) => if running.len() == 0 {
                r is Ok
            } else {
                r is Err && r->Err_0@ == HelperErrorModel::PackageManagerActive(running)
            },
        },
{
    let names = crate::processes::package_managers();
    match crate::processes::running_processes(&names, probes) {
        Err(failure) => Err(HelperError::ProbeFailed(failure.error)),
        Ok(running) => if running.len() == 0 {
            Ok(())
        } else {
            Err(HelperError::PackageManagerActive(running))
        },
    }
}

/// Decides whether the stale lock file may be removed: only if the process
/// table was read and shows no package manager running. Then the file is to
/// be removed if it exists.
pub fn clear_pacman_lock(probes: &[crate::processes::ProcessProbe], lock_exists: bool) -> (r: Result<
    LockAction,
    HelperError,
>)
    ensures
        match crate::processes::running_among(
            crate::processes::package_manager_names(),
            crate::processes::probe_models(probes@),
            crate::processes::package_manager_names().len() as int,
        ) {
            Err(failure) => r is Err && r->Err_0@ == HelperErrorModel::ProbeFailed(failure.error),
            Ok(running) => if running.len() == 0 {
                r == Ok::<LockAction, HelperError>(
                    if lock_exists {
                        LockAction::Remove
                    } else {
                        LockAction::NothingToRemove
                    },
                )
            } else {
                r is Err && r->Err_0@ == HelperErrorModel::PackageManagerActive(running)
            },
        },
{
    match ensure_no_package_manager_running(probes) {
        Err(error) => Err(error),
        Ok(()) => if lock_exists {
            Ok(LockAction::Remove)
        } else {
            Ok(LockAction::NothingToRemove)
        },
    }
}

/// What the helper prints once it is done with the lock file.
pub fn lock_report(action: LockAction) -> (r: String)
    ensures
        r@ == match action {
            LockAction::NothingToRemove => "No pacman lock file present."@,
            LockAction::Remove => "Removed stale pacman lock: "@ + "/var/lib/pacman/db.lck"@,
        },
{
    match action {
        LockAction::NothingToRemove => String::from_str("No pacman lock file present."),
        LockAction::Remove => crate::text::append("Removed stale pacman lock: ", lock_file_path()),
    }
}


/// The token at `index`, or nothing when the vector is shorter.
pub open spec fn token_at(args: Seq<Seq<char>>, index: int) -> Seq<char> {
    if 0 <= index < args.len() {
        args[index]
    } else {
        Seq::empty()
    }
}

/// The name of the flag whose value was turned down at `index`: the token
/// itself, or what stands before its first `=`.
pub open spec fn faulty_flag(args: Seq<Seq<char>>, index: int) -> Seq<char> {
    let token = token_at(args, index);
    if value_flag_of(token) is Some {
        token
    } else {
        match split_at_first(token, '=') {
            Some((name, _)) => name,
            None => token,
        }
    }
}

/// The value that was turned down for the flag at `index`: the token behind
/// it, or what stands behind its first `=`.
pub open spec fn faulty_value(args: Seq<Seq<char>>, index: int) -> Seq<char> {
    let token = token_at(args, index);
    if value_flag_of(token) is Some {
        token_at(args, index + 1)
    } else {
        match split_at_first(token, '=') {
            Some((_, value)) => value,
            None => Seq::empty(),
        }
    }
}

/// The diagnostic for a rejected vector.
pub open spec fn description(error: ValidationError, args: Seq<Seq<char>>) -> Seq<char> {
    match error {
        ValidationError::MissingArgs => "missing pacman args"@,
        ValidationError::OperationNotAllowed => "operation not allowed: "@ + token_at(args, 0),
        ValidationError::FlagAfterPackage(_) => "flags after packages are not allowed"@,
        ValidationError::FlagRequiresValue(index) => "flag requires value: "@ + token_at(
            args,
            index as int,
        ),
        ValidationError::InvalidFlagValue(index, fault) => match fault {
            ValueError::Malformed => "invalid value for "@ + faulty_flag(args, index as int),
            ValueError::BadColor => "invalid value for --color: "@ + faulty_value(
                args,
                index as int,
            ),
            ValueError::UnsafeConfigPath => "unsafe --config path: "@ + faulty_value(
                args,
                index as int,
            ),
            ValueError::RelativePath => "path for "@ + faulty_flag(args, index as int)
                + " must be absolute"@,
            ValueError::OverwriteTooLong => "invalid value for --overwrite"@,
        },
        ValidationError::FlagNotAllowed(index) => "flag not allowed: "@ + token_at(
            args,
            index as int,
        ),
        ValidationError::InvalidPackageName(index) => "invalid package name: "@ + token_at(
            args,
            index as int,
        ),
        ValidationError::InvalidPackageFile(index) => "invalid package file: "@ + token_at(
            args,
            index as int,
        ),
        ValidationError::NoPackages => "no packages supplied"@,
        ValidationError::NoPackageFiles => "no package files supplied"@,
        ValidationError::UpgradeTakesPackages => "-Syu does not accept packages"@,
        ValidationError::TooManyPackages => "too many packages"@,
    }
}

fn token(args: &[String], index: usize) -> (r: String)
    ensures
        r@ == token_at(texts(args@), index as int),
{
    if index < args.len() {
        args[index].clone()
    } else {
        String::new()
    }
}

fn flag_of(args: &[String], index: usize) -> (r: String)
    ensures
        r@ == faulty_flag(texts(args@), index as int),
{
    let whole = token(args, index);
    if flag_takes_value(whole.as_str()) {
        whole
    } else {
        let chars = chars_of(whole.as_str());
        match split_once(chars.as_slice(), '=') {
            Some((name, _)) => text_of(name.as_slice()),
            None => whole,
        }
    }
}

fn value_of(args: &[String], index: usize) -> (r: String)
    ensures
        r@ == faulty_value(texts(args@), index as int),
{
    let whole = token(args, index);
    if flag_takes_value(whole.as_str()) {
        if index < args.len() {
            token(args, index + 1)
        } else {
            String::new()
        }
    } else {
        let chars = chars_of(whole.as_str());
        match split_once(chars.as_slice(), '=') {
            Some((_, value)) => text_of(value.as_slice()),
            None => String::new(),
        }
    }
}

/// The diagnostic for `error`, found in `args`.
pub fn describe(error: ValidationError, args: &[String]) -> (r: String)
    ensures
        r@ == description(error, texts(args@)),
{
    match error {
        ValidationError::MissingArgs => String::from_str("missing pacman args"),
        ValidationError::OperationNotAllowed => crate::text::append(
            "operation not allowed: ",
            token(args, 0).as_str(),
        ),
        ValidationError::FlagAfterPackage(_) => String::from_str(
            "flags after packages are not allowed",
        ),
        ValidationError::FlagRequiresValue(index) => crate::text::append(
            "flag requires value: ",
            token(args, index).as_str(),
        ),
        ValidationError::InvalidFlagValue(index, fault) => match fault {
            ValueError::Malformed => crate::text::append(
                "invalid value for ",
                flag_of(args, index).as_str(),
            ),
            ValueError::BadColor => crate::text::append(
                "invalid value for --color: ",
                value_of(args, index).as_str(),
            ),
            ValueError::UnsafeConfigPath => crate::text::append(
                "unsafe --config path: ",
                value_of(args, index).as_str(),
            ),
            ValueError::RelativePath => {
                let mut out = crate::text::append("path for ", flag_of(args, index).as_str());
                out.append(" must be absolute");
                out
            },
            ValueError::OverwriteTooLong => String::from_str("invalid value for --overwrite"),
        },
        ValidationError::FlagNotAllowed(index) => crate::text::append(
            "flag not allowed: ",
            token(args, index).as_str(),
        ),
        ValidationError::InvalidPackageName(index) => crate::text::append(
            "invalid package name: ",
            token(args, index).as_str(),
        ),
        ValidationError::InvalidPackageFile(index) => crate::text::append(
            "invalid package file: ",
            token(args, index).as_str(),
        ),
        ValidationError::NoPackages => String::from_str("no packages supplied"),
        ValidationError::NoPackageFiles => String::from_str("no package files supplied"),
        ValidationError::UpgradeTakesPackages => String::from_str("-Syu does not accept packages"),
        ValidationError::TooManyPackages => String::from_str("too many packages"),
    }
}

/// The diagnostic for an error of the helper; `args` is the argument vector
/// that a rejection speaks of.
pub open spec fn error_text(error: HelperErrorModel, args: Seq<Seq<char>>) -> Seq<char> {
    match error {
        HelperErrorModel::NotRoot => "must be run as root via pkexec"@,
        HelperErrorModel::NoCommand => "no command supplied"@,
        HelperErrorModel::UnsupportedTarget(target) => "unsupported target: "@ + target,
        HelperErrorModel::Rejected(fault) => description(fault, args),
        HelperErrorModel::ProbeFailed(reason) => "failed to run pgrep safety check: "@ + reason,
        HelperErrorModel::PackageManagerActive(names) => "package manager appears active: "@
            + crate::text::joined(names, ", "@),
    }
}

impl HelperError {
    /// The diagnostic for this error; `args` is the argument vector that a
    /// rejection speaks of.
    pub fn message(&self, args: &[String]) -> (r: String)
        ensures
            r@ == error_text(self@, texts(args@)),
    {
        match self {
            HelperError::NotRoot => String::from_str("must be run as root via pkexec"),
            HelperError::NoCommand => String::from_str("no command supplied"),
            HelperError::UnsupportedTarget(target) => crate::text::append(
                "unsupported target: ",
                target.as_str(),
            ),
            HelperError::Rejected(fault) => describe(*fault, args),
            HelperError::ProbeFailed(reason) => crate::text::append(
                "failed to run pgrep safety check: ",
                reason.as_str(),
            ),
            HelperError::PackageManagerActive(names) => crate::text::append(
                "package manager appears active: ",
                crate::text::join(names, ", ").as_str(),
            ),
        }
    }
}

} // verus!

//! Uploads of dropped files over a connection of their own.
//!
//! The control attachment stays as it is, and a refused or slow transfer cannot
//! stall it. What is here is everything but the transfer itself: names, sizes,
//! the order of steps, and what is undone when one of them fails.
use vstd::prelude::*;
use crate::exchange::WriteOutcome;
use crate::fault::Fault;
use crate::sessions::push_bytes;
use crate::text;

verus! {

/// The most files of one drop.
pub const MAX_FILES: usize = 8;

/// Files larger than this need an explicit confirmation.
pub const MAX_FILE_BYTES: u64 = 33_554_432;

/// The most bytes of a file name on the host.
pub const MAX_NAME: usize = 255;

/// The most bytes of a path on the host.
pub const MAX_PATH: usize = 1024;

/// The bytes of a mebibyte.
pub const MEBIBYTE: u64 = 1_048_576;

/// Shortest time that a transfer's operations are given, in seconds.
pub const MIN_TIMEOUT_SECS: u64 = 30;

/// Bytes written so far of the file that is being uploaded.
pub struct Progress<'a> {
    pub name: &'a str,
    pub done: u64,
    pub total: u64,
}

/// Why an upload failed.
#[derive(Debug)]
pub enum UploadError {
    NoFiles,
    TooManyFiles,
    Cancelled,
    /// The path has no file name, or one that is no text.
    NameMissing,
    /// The file name cannot be used on the host.
    NameRefused,
    /// Nothing of the name is left beside what makes it unique.
    NameTooLong,
    Stat(Fault),
    NotRegular,
    TooLarge,
    /// The host's directory for temporary files cannot be used.
    Directory,
    PathTooLong,
    /// The file changed size while it was being uploaded.
    Changed,
    Closed,
    ShortPayload,
    Stalled,
    WriteFailed(Fault),
    NotUtf8,
    /// The host refused, with this status.
    Refused(u32),
    Unexpected,
}

/// A file name that can be used on the host: one component, not one of the two
/// that mean a directory, and free of control characters.
pub open spec fn usable_name(name: Seq<char>) -> bool {
    name.len() > 0 && text::byte_len(name) <= MAX_NAME && name != "."@ && name != ".."@
        && !name.contains('/') && !name.contains('\\') && !text::has_control(name)
}

/// The last component of a path, where it has one: what `Path::file_name` returns.
pub uninterp spec fn last_component(path: Seq<char>) -> Option<Seq<char>>;

/// `Path::file_name` of a path that is text depends on the text alone, and is
/// text itself.
#[verifier::external_body]
pub(crate) fn file_name_of(path: &str) -> (r: Option<String>)
    ensures
        match r {
            Some(name) => last_component(path@) == Some(name@),
            None => last_component(path@) is None,
        },
{
    std::path::Path::new(path).file_name().and_then(|name| name.to_str()).map(str::to_owned)
}

fn contains_char(v: &[char], c: char) -> (r: bool)
    ensures
        r == v@.contains(c),
{
    for i in 0..v.len()
        invariant
            forall|j: int| 0 <= j < i ==> v@[j] != c,
    {
        if v[i] == c {
            assert(v@[i as int] == c);
            return true;
        }
    }
    false
}

/// Whether a file keeps its name on the host.
pub open spec fn keeps_name(name: Option<Seq<char>>, r: Result<String, UploadError>) -> bool {
    match r {
        Ok(kept) => name is Some && usable_name(name->0) && kept@ == name->0,
        Err(error) => match name {
            None => error == UploadError::NameMissing,
            Some(given) => error == UploadError::NameRefused && !usable_name(given),
        },
    }
}

/// The name that a file has on the host, from the last component of its path.
/// Separators are refused, so a drop cannot choose a remote directory.
pub fn check_file_name(name: Option<&str>) -> (r: Result<String, UploadError>)
    ensures
        keeps_name(
            match name {
                Some(name) => Some(name@),
                None => None,
            },
            r,
        ),
{
    let given: &str = match name {
        Some(given) => given,
        None => return Err(UploadError::NameMissing),
    };
    let v = text::chars_of(given);
    if v.len() == 0 || text::byte_length(given) > MAX_NAME || text::same(given, ".") || text::same(
        given,
        "..",
    ) || contains_char(v.as_slice(), '/') || contains_char(v.as_slice(), '\\')
        || text::any_control(v.as_slice()) {
        return Err(UploadError::NameRefused);
    }
    Ok(given.to_owned())
}

/// The name that the file of a path has on the host.
pub fn remote_file_name(path: &str) -> (r: Result<String, UploadError>)
    ensures
        match r {
            Ok(name) => last_component(path@) == Some(name@) && usable_name(name@),
            Err(error) => match last_component(path@) {
                None => error == UploadError::NameMissing,
                Some(name) => error == UploadError::NameRefused && !usable_name(name),
            },
        },
{
    match file_name_of(path) {
        Some(name) => check_file_name(Some(name.as_str())),
        None => check_file_name(None),
    }
}

/// What makes a name unique among uploads: the time and the place in the drop.
pub open spec fn unique_prefix(stamp: u128, index: usize) -> Seq<char> {
    "starcom-"@ + text::digits(stamp as nat) + "-"@ + text::digits(index as nat) + "-"@
}

/// As much of a name, from its beginning, as takes no more bytes than that.
pub open spec fn fitted(name: Seq<char>, room: int) -> Seq<char>
    decreases name.len(),
{
    if name.len() == 0 || text::byte_len(name) <= room {
        name
    } else {
        fitted(name.drop_last(), room)
    }
}

/// A unique name for a file on the host: the original name behind what makes it
/// unique, cut at its end where the whole would be too long.
pub fn unique_remote_name(name: &str, stamp: u128, index: usize) -> (r: Result<
    String,
    UploadError,
>)
    ensures
        ({
            let prefix = unique_prefix(stamp, index);
            let rest = fitted(name@, MAX_NAME - text::byte_len(prefix));
            match r {
                Ok(unique) => text::byte_len(prefix) < MAX_NAME && rest.len() > 0 && unique@
                    == prefix + rest,
                Err(error) => error == UploadError::NameTooLong && (text::byte_len(prefix)
                    >= MAX_NAME || rest.len() == 0),
            }
        }),
{
    let mut unique = "starcom-".to_owned();
    text::push_decimal_wide(&mut unique, stamp);
    text::push_text(&mut unique, "-");
    text::push_decimal(&mut unique, index as u64);
    text::push_text(&mut unique, "-");
    assert(unique@ =~= unique_prefix(stamp, index));
    let taken: usize = text::byte_length(unique.as_str());
    if taken >= MAX_NAME {
        return Err(UploadError::NameTooLong);
    }
    let room: usize = MAX_NAME - taken;
    let v = text::chars_of(name);
    let mut end: usize = v.len();
    let mut rest: String = name.to_owned();
    assert(name@.take(end as int) =~= name@);
    while end > 0 && text::byte_length(rest.as_str()) > room
        invariant
            v@ == name@,
            end <= v@.len(),
            rest@ == name@.take(end as int),
            fitted(name@, room as int) == fitted(name@.take(end as int), room as int),
        decreases end,
    {
        assert(name@.take(end as int).drop_last() =~= name@.take(end - 1));
        end = end - 1;
        let part = text::part_of(v.as_slice(), 0, end);
        assert(part@ =~= name@.take(end as int));
        rest = text::string_of(part.as_slice());
    }
    if end == 0 {
        return Err(UploadError::NameTooLong);
    }
    text::push_text(&mut unique, rest.as_str());
    Ok(unique)
}

/// A directory and a name as one path.
pub open spec fn joined(dir: Seq<char>, name: Seq<char>) -> Seq<char> {
    if dir.len() > 0 && dir.last() == '/' {
        dir + name
    } else {
        dir.push('/') + name
    }
}

/// A directory and a name as one path, with one separator between them.
pub fn join_remote(dir: &str, name: &str) -> (r: String)
    ensures
        r@ == joined(dir@, name@),
{
    let v = text::chars_of(dir);
    let mut r = dir.to_owned();
    if v.len() == 0 || v[v.len() - 1] != '/' {
        r.push('/');
    }
    text::push_text(&mut r, name);
    r
}

/// Whether a file of this size may be uploaded.
pub open spec fn allows(len: u64, max_bytes: Option<u64>, r: Result<(), UploadError>) -> bool {
    match r {
        Ok(()) => max_bytes is None || len <= max_bytes->0,
        Err(error) => error == UploadError::TooLarge && max_bytes is Some && len
            > max_bytes->0,
    }
}

/// Refuses a file that is larger than allowed.
pub fn ensure_file_size(len: u64, max_bytes: Option<u64>) -> (r: Result<(), UploadError>)
    ensures
        allows(len, max_bytes, r),
{
    match max_bytes {
        Some(max) => if len > max {
            return Err(UploadError::TooLarge);
        },
        None => {},
    }
    Ok(())
}

/// A number over a unit, rounded to the nearest whole number, and to the even
/// one of two that are as near.
pub open spec fn rounded(n: nat, unit: nat) -> nat {
    let whole = n / unit;
    let rest = n % unit;
    if 2 * rest > unit || (2 * rest == unit && whole % 2 == 1) {
        whole + 1
    } else {
        whole
    }
}

/// The smallest power of two, from `unit` on, of which a number of 64 bits holds
/// less than two to the 53rd.
pub open spec fn precision(n: nat, unit: nat) -> nat
    decreases (if unit < 2048 { 2048 - unit } else { 0 }),
{
    if unit == 0 || unit >= 2048 || n / unit < 0x20_0000_0000_0000 {
        unit
    } else {
        precision(n, 2 * unit)
    }
}

/// A number of 64 bits as a double-precision number has it.
pub open spec fn as_double(n: nat) -> nat {
    let unit = precision(n, 1);
    rounded(n, unit) * unit
}

/// A size in whole mebibytes, as a double-precision quotient prints without
/// decimals.
pub open spec fn mebibytes(bytes: nat) -> nat {
    rounded(as_double(bytes), MEBIBYTE as nat)
}

fn round(n: u128, unit: u128) -> (r: u128)
    requires
        0 < unit <= 0x1_0000_0000_0000_0000,
        n <= 0x2_0000_0000_0000_0000,
    ensures
        r == rounded(n as nat, unit as nat),
        r <= n / unit + 1,
{
    let whole: u128 = n / unit;
    let rest: u128 = n % unit;
    assert(whole <= n) by (nonlinear_arith)
        requires
            whole == n / unit,
            unit > 0,
            n >= 0,
    ;
    if 2 * rest > unit || (2 * rest == unit && whole % 2 == 1) {
        whole + 1
    } else {
        whole
    }
}

fn in_mebibytes(bytes: u64) -> (r: u128)
    ensures
        r == mebibytes(bytes as nat),
        r <= 0x2000_0000_0000,
{
    let n: u128 = bytes as u128;
    let mut unit: u128 = 1;
    while unit < 2048 && n / unit >= 0x20_0000_0000_0000
        invariant
            n == bytes,
            n <= 0xffff_ffff_ffff_ffff,
            unit == 1 || unit == 2 || unit == 4 || unit == 8 || unit == 16 || unit == 32 || unit
                == 64 || unit == 128 || unit == 256 || unit == 512 || unit == 1024 || unit == 2048,
            precision(n as nat, 1) == precision(n as nat, unit as nat),
        decreases 2048 - unit,
    {
        unit = unit * 2;
    }
    let whole: u128 = round(n, unit);
    assert(whole * unit <= n + unit) by (nonlinear_arith)
        requires
            whole <= n / unit + 1,
            unit > 0,
    ;
    round(whole * unit, MEBIBYTE as u128)
}

/// The sizes of files together.
pub open spec fn total_size(files: Seq<(String, u64)>) -> nat
    decreases files.len(),
{
    if files.len() == 0 {
        0
    } else {
        total_size(files.drop_last()) + files.last().1 as nat
    }
}

/// Some file is larger than may be uploaded without confirmation.
pub open spec fn any_oversize(files: Seq<(String, u64)>) -> bool {
    exists|i: int| 0 <= i < files.len() && (#[trigger] files[i]).1 > MAX_FILE_BYTES
}

/// The question that is asked before oversize files are uploaded.
pub open spec fn oversize_text(files: Seq<(String, u64)>) -> Seq<char> {
    if files.len() == 1 {
        files[0].0@ + " is "@ + text::digits(mebibytes(files[0].1 as nat))
            + " MiB (limit 32 MiB). Upload anyway?"@
    } else {
        text::digits(files.len()) + " files, "@ + text::digits(mebibytes(total_size(files)))
            + " MiB total (limit 32 MiB each). Upload anyway?"@
    }
}

proof fn lemma_total_size_prefix(files: Seq<(String, u64)>, n: int)
    requires
        0 <= n <= files.len(),
    ensures
        total_size(files.take(n)) <= total_size(files),
    decreases files.len(),
{
    if n < files.len() {
        assert(files.drop_last().take(n) =~= files.take(n));
        lemma_total_size_prefix(files.drop_last(), n);
    } else {
        assert(files.take(n) =~= files);
    }
}

/// The question to ask when a dropped file is oversize; none when no file is.
pub fn oversize_notice(files: &Vec<(String, u64)>) -> (r: Option<String>)
    requires
        any_oversize(files@) && files@.len() != 1 ==> total_size(files@) <= u64::MAX,
    ensures
        match r {
            Some(question) => any_oversize(files@) && question@ == oversize_text(files@),
            None => !any_oversize(files@),
        },
{
    let mut oversize: bool = false;
    for i in 0..files.len()
        invariant
            oversize == exists|j: int| 0 <= j < i && (#[trigger] files@[j]).1 > MAX_FILE_BYTES,
    {
        if files[i].1 > MAX_FILE_BYTES {
            assert(files@[i as int].1 > MAX_FILE_BYTES);
            oversize = true;
        }
    }
    if !oversize {
        return None;
    }
    if files.len() == 1 {
        let mut question: String = files[0].0.clone();
        text::push_text(&mut question, " is ");
        text::push_decimal_wide(&mut question, in_mebibytes(files[0].1));
        text::push_text(&mut question, " MiB (limit 32 MiB). Upload anyway?");
        return Some(question);
    }
    let mut total: u64 = 0;
    assert(files@.take(0) =~= Seq::<(String, u64)>::empty());
    for i in 0..files.len()
        invariant
            total_size(files@) <= u64::MAX,
            total == total_size(files@.take(i as int)),
    {
        proof {
            assert(files@.take(i + 1).drop_last() =~= files@.take(i as int));
            lemma_total_size_prefix(files@, i + 1);
        }
        total = total + files[i].1;
    }
    assert(files@.take(files@.len() as int) =~= files@);
    let mut question = text::decimal(files.len() as u64);
    text::push_text(&mut question, " files, ");
    text::push_decimal_wide(&mut question, in_mebibytes(total));
    text::push_text(&mut question, " MiB total (limit 32 MiB each). Upload anyway?");
    Some(question)
}

/// What is known of a dropped file: whether the upload was still wanted when it
/// was looked at, the last component of its path, and whether it is a regular
/// file of which size.
pub struct LocalFile {
    pub running: bool,
    pub name: Option<String>,
    pub stat: Result<(bool, u64), Fault>,
}

/// A file that is ready to be uploaded.
pub struct Prepared {
    pub remote_name: String,
    pub name: String,
    pub total: u64,
}

/// What a prepared file is, apart from how its names are held.
pub struct Plan {
    pub remote_name: Seq<char>,
    pub name: Seq<char>,
    pub total: u64,
}

impl View for Prepared {
    type V = Plan;

    open spec fn view(&self) -> Plan {
        Plan { remote_name: self.remote_name@, name: self.name@, total: self.total }
    }
}

/// What each of a list of prepared files is.
pub open spec fn plans(v: Seq<Prepared>) -> Seq<Plan> {
    Seq::new(v.len(), |i: int| v[i]@)
}

/// The unique name of a file, where there is one.
pub open spec fn unique_name(name: Seq<char>, stamp: u128, index: usize) -> Option<Seq<char>> {
    let prefix = unique_prefix(stamp, index);
    let rest = fitted(name, MAX_NAME - text::byte_len(prefix));
    if text::byte_len(prefix) < MAX_NAME && rest.len() > 0 {
        Some(prefix + rest)
    } else {
        None
    }
}

/// What one dropped file comes to.
pub open spec fn planned(file: LocalFile, stamp: u128, index: usize, max_bytes: Option<u64>) -> Result<
    Plan,
    UploadError,
> {
    if !file.running {
        Err(UploadError::Cancelled)
    } else {
        match file.name {
            None => Err(UploadError::NameMissing),
            Some(name) => if !usable_name(name@) {
                Err(UploadError::NameRefused)
            } else {
                match unique_name(name@, stamp, index) {
                    None => Err(UploadError::NameTooLong),
                    Some(remote_name) => match file.stat {
                        Err(error) => Err(UploadError::Stat(error)),
                        Ok((regular, len)) => if !regular {
                            Err(UploadError::NotRegular)
                        } else if max_bytes is Some && len > max_bytes->0 {
                            Err(UploadError::TooLarge)
                        } else {
                            Ok(Plan { remote_name, name: name@, total: len })
                        },
                    },
                }
            },
        }
    }
}

/// What dropped files come to, in order, up to the first that is refused.
pub open spec fn all_planned(files: Seq<LocalFile>, stamp: u128, max_bytes: Option<u64>) -> Result<
    Seq<Plan>,
    UploadError,
>
    decreases files.len(),
{
    if files.len() == 0 {
        Ok(Seq::empty())
    } else {
        match all_planned(files.drop_last(), stamp, max_bytes) {
            Err(error) => Err(error),
            Ok(before) => match planned(
                files.last(),
                stamp,
                (files.len() - 1) as usize,
                max_bytes,
            ) {
                Err(error) => Err(error),
                Ok(plan) => Ok(before.push(plan)),
            },
        }
    }
}

proof fn lemma_refused_files(files: Seq<LocalFile>, stamp: u128, max_bytes: Option<u64>, n: int)
    requires
        0 <= n <= files.len(),
        all_planned(files.take(n), stamp, max_bytes) is Err,
    ensures
        all_planned(files, stamp, max_bytes) == all_planned(files.take(n), stamp, max_bytes),
    decreases files.len(),
{
    if n < files.len() {
        assert(files.drop_last().take(n) =~= files.take(n));
        lemma_refused_files(files.drop_last(), stamp, max_bytes, n);
    } else {
        assert(files.take(n) =~= files);
    }
}

fn prepare(file: LocalFile, stamp: u128, index: usize, max_bytes: Option<u64>) -> (r: Result<
    Prepared,
    UploadError,
>)
    ensures
        match r {
            Ok(prepared) => planned(file, stamp, index, max_bytes) == Ok::<Plan, UploadError>(
                prepared@,
            ),
            Err(error) => planned(file, stamp, index, max_bytes) == Err::<Plan, UploadError>(error),
        },
{
    if !file.running {
        return Err(UploadError::Cancelled);
    }
    let name: String = match &file.name {
        Some(name) => match check_file_name(Some(name.as_str())) {
            Ok(name) => name,
            Err(error) => return Err(error),
        },
        None => return Err(UploadError::NameMissing),
    };
    let remote_name: String = match unique_remote_name(name.as_str(), stamp, index) {
        Ok(remote_name) => remote_name,
        Err(error) => return Err(error),
    };
    let (regular, len) = match file.stat {
        Ok(stat) => stat,
        Err(error) => return Err(UploadError::Stat(error)),
    };
    if !regular {
        return Err(UploadError::NotRegular);
    }
    match ensure_file_size(len, max_bytes) {
        Ok(()) => {},
        Err(error) => return Err(error),
    }
    Ok(Prepared { remote_name, name, total: len })
}

/// What preparing an upload comes to.
pub open spec fn prepares(
    files: Seq<LocalFile>,
    stamp: u128,
    max_bytes: Option<u64>,
    r: Result<Vec<Prepared>, UploadError>,
) -> bool {
    match r {
        Ok(prepared) => 0 < files.len() <= MAX_FILES && all_planned(files, stamp, max_bytes)
            == Ok::<Seq<Plan>, UploadError>(plans(prepared@)),
        Err(error) => if files.len() == 0 {
            error == UploadError::NoFiles
        } else if files.len() > MAX_FILES {
            error == UploadError::TooManyFiles
        } else {
            all_planned(files, stamp, max_bytes) == Err::<Seq<Plan>, UploadError>(error)
        },
    }
}

/// Prepares an upload of dropped files, all of them or none. Without a bound the
/// user has confirmed oversize files.
pub fn put_files_while(files: Vec<LocalFile>, stamp: u128, max_bytes: Option<u64>) -> (r: Result<
    Vec<Prepared>,
    UploadError,
>)
    ensures
        prepares(files@, stamp, max_bytes, r),
{
    if files.len() == 0 {
        return Err(UploadError::NoFiles);
    }
    if files.len() > MAX_FILES {
        return Err(UploadError::TooManyFiles);
    }
    let ghost all = files@;
    let mut prepared: Vec<Prepared> = Vec::new();
    assert(all.take(0) =~= Seq::<LocalFile>::empty());
    assert(plans(prepared@) =~= Seq::<Plan>::empty());
    for file in it: files
        invariant
            all == it.seq(),
            0 < all.len() <= MAX_FILES,
            prepared@.len() == it.index(),
            all_planned(all.take(it.index()), stamp, max_bytes) == Ok::<Seq<Plan>, UploadError>(
                plans(prepared@),
            ),
    {
        let ghost n = it.index();
        assert(all.take(n + 1).drop_last() =~= all.take(n));
        assert(all.take(n + 1).last() == file);
        let index: usize = prepared.len();
        match prepare(file, stamp, index, max_bytes) {
            Ok(one) => {
                let ghost before = plans(prepared@);
                prepared.push(one);
                assert(plans(prepared@) =~= before.push(one@));
            },
            Err(error) => {
                proof {
                    lemma_refused_files(all, stamp, max_bytes, n + 1);
                }
                return Err(error);
            },
        }
    }
    assert(all.take(all.len() as int) =~= all);
    Ok(prepared)
}

/// Prepares an upload of dropped files, none of them oversize.
pub fn put_files(files: Vec<LocalFile>, stamp: u128) -> (r: Result<Vec<Prepared>, UploadError>)
    ensures
        match r {
            Ok(prepared) => 0 < files@.len() <= MAX_FILES && all_planned(
                files@,
                stamp,
                Some(MAX_FILE_BYTES),
            ) == Ok::<Seq<Plan>, UploadError>(plans(prepared@)),
            Err(error) => if files@.len() == 0 {
                error == UploadError::NoFiles
            } else if files@.len() > MAX_FILES {
                error == UploadError::TooManyFiles
            } else {
                all_planned(files@, stamp, Some(MAX_FILE_BYTES)) == Err::<Seq<Plan>, UploadError>(
                    error,
                )
            },
        },
{
    put_files_while(files, stamp, Some(MAX_FILE_BYTES))
}

/// The time that an operation is given.
pub open spec fn gives(secs: u64, r: u64) -> bool {
    r == (if secs < MIN_TIMEOUT_SECS {
        MIN_TIMEOUT_SECS
    } else {
        secs
    })
}

/// The time that each of a transfer's operations is given, in seconds.
pub fn transfer_timeout(secs: u64) -> (r: u64)
    ensures
        gives(secs, r),
{
    if secs < MIN_TIMEOUT_SECS {
        MIN_TIMEOUT_SECS
    } else {
        secs
    }
}

/// A directory of the host that can be used: absolute, not too long, and free of
/// control characters.
pub open spec fn usable_directory(dir: Seq<char>) -> bool {
    dir.len() > 0 && dir[0] == '/' && text::byte_len(dir) <= MAX_PATH && !text::has_control(dir)
}

/// An upload of prepared files into one directory: what is stored so far, and
/// whether the next file was opened on the host.
pub struct Upload {
    pub dir: String,
    pub files: Vec<Prepared>,
    pub stored: Vec<String>,
    pub open: bool,
}

/// Where a file of an upload goes.
pub open spec fn upload_path(upload: Upload, i: int) -> Seq<char> {
    joined(upload.dir@, upload.files@[i].remote_name@)
}

/// What an upload leaves on the host: the file that was opened last and is not
/// stored, and then everything that was stored, latest first.
pub open spec fn leavings(upload: Upload) -> Seq<Seq<char>> {
    let n = upload.stored@.len();
    let stored = Seq::new(n, |i: int| upload_path(upload, n - 1 - i));
    if upload.open {
        seq![upload_path(upload, n as int)] + stored
    } else {
        stored
    }
}

/// What opening the next file comes to.
pub open spec fn opens_next(
    before: Upload,
    answer: Event,
    r: Result<Vec<u8>, UploadError>,
    after: Upload,
) -> bool {
    &&& after == (Upload { open: r is Ok, ..before })
    &&& match answer {
        Event::Handle(handle) => r == Ok::<Vec<u8>, UploadError>(handle),
        Event::Status(code) => r == Err::<Vec<u8>, UploadError>(
            UploadError::Refused(code),
        ),
        _ => r == Err::<Vec<u8>, UploadError>(UploadError::Unexpected),
    }
}

/// What ending an upload comes to.
pub open spec fn finishes(before: Upload, r: Result<Vec<String>, Vec<String>>) -> bool {
    match r {
        Ok(paths) => before.stored@.len() == before.files@.len() && text::strings(paths@)
            == Seq::new(before.files@.len(), |i: int| upload_path(before, i)),
        Err(rest) => before.stored@.len() < before.files@.len() && text::strings(rest@)
            == leavings(before),
    }
}

/// Where the next file goes.
pub open spec fn goes_to(
    before: Upload,
    running: bool,
    r: Result<Option<String>, UploadError>,
) -> bool {
    let n = before.stored@.len() as int;
    if n == before.files@.len() {
        r is Ok && r->Ok_0 is None
    } else {
        let path = joined(before.dir@, before.files@[n].remote_name@);
        match r {
            Ok(Some(given)) => running && text::byte_len(path) <= MAX_PATH && given@
                == path,
            Ok(None) => false,
            Err(error) => if !running {
                error == UploadError::Cancelled
            } else {
                error == UploadError::PathTooLong && text::byte_len(path) > MAX_PATH
            },
        }
    }
}

impl Upload {
    /// The stored paths are those of the first files, in order, and only a file
    /// that is not stored is open.
    pub open spec fn wf(&self) -> bool {
        &&& self.stored@.len() <= self.files@.len()
        &&& self.open ==> self.stored@.len() < self.files@.len()
        &&& forall|i: int|
            0 <= i < self.stored@.len() ==> (#[trigger] self.stored@[i])@ == joined(
                self.dir@,
                self.files@[i].remote_name@,
            )
    }

    /// Starts an upload into the directory that the host named.
    pub fn new(dir: String, files: Vec<Prepared>) -> (r: Result<Self, UploadError>)
        ensures
            match r {
                Ok(upload) => usable_directory(dir@) && upload.wf() && upload.dir == dir
                    && upload.files == files && upload.stored@.len() == 0 && !upload.open,
                Err(error) => error == UploadError::Directory && !usable_directory(dir@),
            },
    {
        let v = text::chars_of(dir.as_str());
        if v.len() == 0 || v[0] != '/' || text::byte_length(dir.as_str()) > MAX_PATH
            || text::any_control(v.as_slice()) {
            return Err(UploadError::Directory);
        }
        Ok(Upload { dir, files, stored: Vec::new(), open: false })
    }

    /// The path for the next file, or none when every file is stored.
    pub fn next(&self, running: bool) -> (r: Result<Option<String>, UploadError>)
        requires
            self.wf(),
        ensures
            goes_to(*self, running, r),
    {
        if self.stored.len() == self.files.len() {
            return Ok(None);
        }
        if !running {
            return Err(UploadError::Cancelled);
        }
        let path = join_remote(
            self.dir.as_str(),
            self.files[self.stored.len()].remote_name.as_str(),
        );
        if text::byte_length(path.as_str()) > MAX_PATH {
            return Err(UploadError::PathTooLong);
        }
        Ok(Some(path))
    }

    /// Takes the answer to the request that opens the next file, which the host
    /// refuses where there is one already. Returns the file's handle.
    pub fn opened(&mut self, answer: Event) -> (r: Result<Vec<u8>, UploadError>)
        requires
            old(self).wf(),
            old(self).stored@.len() < old(self).files@.len(),
            !old(self).open,
        ensures
            final(self).wf(),
            opens_next(*old(self), answer, r, *final(self)),
    {
        let handle = expect_handle(answer);
        self.open = handle.is_ok();
        handle
    }

    /// The file that was opened is stored.
    pub fn store(&mut self)
        requires
            old(self).wf(),
            old(self).open,
        ensures
            final(self).wf(),
            final(self).stored@.len() == old(self).stored@.len() + 1,
            final(self).stored@.drop_last() == old(self).stored@,
            *final(self) == (Upload { stored: final(self).stored, open: false, ..*old(self) }),
    {
        let path = join_remote(
            self.dir.as_str(),
            self.files[self.stored.len()].remote_name.as_str(),
        );
        self.stored.push(path);
        self.open = false;
        assert(self.stored@.drop_last() =~= old(self).stored@);
    }

    /// What to remove again after a failure: the file that failed, exactly if it
    /// was opened, and then everything that was stored, latest first.
    pub fn undo(self) -> (r: Vec<String>)
        requires
            self.wf(),
        ensures
            text::strings(r@) == leavings(self),
    {
        let mut r: Vec<String> = Vec::new();
        let ghost all = leavings(self);
        let ghost ahead: int = if self.open {
            1
        } else {
            0
        };
        let ghost n = self.stored@.len() as int;
        if self.open {
            r.push(
                join_remote(
                    self.dir.as_str(),
                    self.files[self.stored.len()].remote_name.as_str(),
                ),
            );
        }
        let mut left: usize = self.stored.len();
        assert(text::strings(r@) =~= all.take(ahead));
        while left > 0
            invariant
                self.wf(),
                all == leavings(self),
                n == self.stored@.len(),
                ahead == (if self.open {
                    1int
                } else {
                    0int
                }),
                left <= n,
                text::strings(r@) == all.take(ahead + n - left),
            decreases left,
        {
            let ghost before = text::strings(r@);
            let ghost here = ahead + n - left;
            left = left - 1;
            let path: String = self.stored[left].clone();
            r.push(path);
            proof {
                assert(text::strings(r@) =~= before.push(path@));
                assert(path@ == upload_path(self, left as int));
                assert(all[here] == upload_path(self, left as int));
                assert(all.take(here + 1) =~= all.take(here).push(all[here]));
            }
        }
        assert(all.take(all.len() as int) =~= all);
        r
    }

    /// Ends an upload. Either every file is stored, and their paths come out in the
    /// order of the files; or none is kept, and what is to be removed comes out.
    pub fn finish(self) -> (r: Result<Vec<String>, Vec<String>>)
        requires
            self.wf(),
        ensures
            finishes(self, r),
    {
        if self.stored.len() == self.files.len() {
            assert(text::strings(self.stored@) =~= Seq::new(
                self.files@.len(),
                |i: int| upload_path(self, i),
            ));
            return Ok(self.stored);
        }
        Err(self.undo())
    }
}

/// What to do with a file after a read.
#[derive(Clone, Copy, Debug, PartialEq, Eq, Structural)]
pub enum Chunk {
    /// Write so many bytes at this place.
    Write { offset: u64, count: usize },
    /// Everything is written: close the file.
    Close,
}

/// One file on its way to the host: its size when the upload began, and how much
/// of it the host has.
pub struct Put {
    pub expected: u64,
    pub offset: u64,
}

/// What a read of a file comes to.
pub open spec fn reads(
    before: Put,
    running: bool,
    count: usize,
    r: Result<Chunk, UploadError>,
) -> bool {
    match r {
        Ok(Chunk::Close) => running && count == 0 && before.offset == before.expected,
        Ok(Chunk::Write { offset, count: n }) => running && n == count && count > 0
            && offset == before.offset && offset + count <= before.expected,
        Err(error) => if !running {
            error == UploadError::Cancelled
        } else {
            error == UploadError::Changed && (if count == 0 {
                before.offset != before.expected
            } else {
                before.offset + count > before.expected
            })
        },
    }
}

impl Put {
    pub open spec fn wf(&self) -> bool {
        self.offset <= self.expected
    }

    pub fn new(expected: u64) -> (r: Self)
        ensures
            r == (Put { expected, offset: 0 }),
            r.wf(),
    {
        Put { expected, offset: 0 }
    }

    /// What to do after a read of so many bytes, none of them at the end. A file
    /// that has become longer or shorter is not uploaded, and neither is one that is
    /// no longer wanted, which is asked before the read.
    pub fn read(&self, running: bool, count: usize) -> (r: Result<Chunk, UploadError>)
        requires
            self.wf(),
        ensures
            reads(*self, running, count, r),
    {
        if !running {
            return Err(UploadError::Cancelled);
        }
        if count == 0 {
            if self.offset != self.expected {
                return Err(UploadError::Changed);
            }
            return Ok(Chunk::Close);
        }
        if count as u64 > self.expected - self.offset {
            return Err(UploadError::Changed);
        }
        Ok(Chunk::Write { offset: self.offset, count })
    }

    /// The host has so many bytes more. Returns how many it has.
    pub fn written(&mut self, count: usize) -> (r: u64)
        requires
            old(self).offset + count <= old(self).expected,
        ensures
            *final(self) == (Put {
                offset: (old(self).offset + count) as u64,
                ..*old(self)
            }),
            final(self).wf(),
            r == final(self).offset,
    {
        self.offset = self.offset + count as u64;
        self.offset
    }
}

/// What the host answers.
#[derive(Debug)]
pub enum Event {
    Version,
    Handle(Vec<u8>),
    Status(u32),
    NameStart(u32),
    Name(Vec<u8>),
    NameEnd,
}

/// The status by which a host says that a request was carried out.
pub const STATUS_OK: u32 = 0;

/// What the answer to a request comes to.
pub open spec fn confirms(event: Event, r: Result<(), UploadError>) -> bool {
    match event {
        Event::Status(code) => if code == STATUS_OK {
            r is Ok
        } else {
            r == Err::<(), UploadError>(UploadError::Refused(code))
        },
        _ => r == Err::<(), UploadError>(UploadError::Unexpected),
    }
}

/// What a request that can only succeed or fail came to.
pub fn expect_ok(event: Event) -> (r: Result<(), UploadError>)
    ensures
        confirms(event, r),
{
    match event {
        Event::Status(code) => if code == STATUS_OK {
            Ok(())
        } else {
            Err(UploadError::Refused(code))
        },
        _ => Err(UploadError::Unexpected),
    }
}

/// What the handshake came to.
pub fn expect_version(event: Event) -> (r: Result<(), UploadError>)
    ensures
        if event is Version {
            r is Ok
        } else {
            r == Err::<(), UploadError>(UploadError::Unexpected)
        },
{
    match event {
        Event::Version => Ok(()),
        _ => Err(UploadError::Unexpected),
    }
}

/// What the answer to opening a file comes to.
pub open spec fn opens(event: Event, r: Result<Vec<u8>, UploadError>) -> bool {
    match event {
        Event::Handle(handle) => r == Ok::<Vec<u8>, UploadError>(handle),
        Event::Status(code) => r == Err::<Vec<u8>, UploadError>(UploadError::Refused(code)),
        _ => r == Err::<Vec<u8>, UploadError>(UploadError::Unexpected),
    }
}

/// What a request to open a file came to.
pub fn expect_handle(event: Event) -> (r: Result<Vec<u8>, UploadError>)
    ensures
        opens(event, r),
{
    match event {
        Event::Handle(handle) => Ok(handle),
        Event::Status(code) => Err(UploadError::Refused(code)),
        _ => Err(UploadError::Unexpected),
    }
}

/// How far the host has come with naming a directory: it announces at least one
/// name, gives it, and ends.
#[derive(Debug)]
pub enum Realpath {
    Start,
    Announced,
    Named(String),
}

/// What the next answer about a directory comes to.
pub open spec fn names(
    before: Realpath,
    event: Event,
    r: Result<Result<String, Realpath>, UploadError>,
) -> bool {
    match (before, event) {
        (Realpath::Start, Event::NameStart(count)) => if count >= 1 {
            r == Ok::<Result<String, Realpath>, UploadError>(Err(Realpath::Announced))
        } else {
            r == Err::<Result<String, Realpath>, UploadError>(UploadError::Unexpected)
        },
        (Realpath::Start, Event::Status(code)) => r == Err::<
            Result<String, Realpath>,
            UploadError,
        >(UploadError::Refused(code)),
        (Realpath::Announced, Event::Name(bytes)) => match r {
            Ok(Err(Realpath::Named(name))) => vstd::utf8::valid_utf8(bytes@) && name@
                == vstd::utf8::decode_utf8(bytes@),
            Err(error) => error == UploadError::NotUtf8 && !vstd::utf8::valid_utf8(bytes@),
            _ => false,
        },
        (Realpath::Named(name), Event::NameEnd) => r == Ok::<
            Result<String, Realpath>,
            UploadError,
        >(Ok(name)),
        _ => r == Err::<Result<String, Realpath>, UploadError>(UploadError::Unexpected),
    }
}

impl Realpath {
    /// Takes the next answer. Returns the rest of the sequence, or the name once
    /// it is over.
    pub fn take(self, event: Event) -> (r: Result<Result<String, Realpath>, UploadError>)
        ensures
            names(self, event, r),
    {
        match self {
            Realpath::Start => match event {
                Event::NameStart(count) => if count >= 1 {
                    Ok(Err(Realpath::Announced))
                } else {
                    Err(UploadError::Unexpected)
                },
                Event::Status(code) => Err(UploadError::Refused(code)),
                _ => Err(UploadError::Unexpected),
            },
            Realpath::Announced => match event {
                Event::Name(bytes) => match text::utf8_text(bytes) {
                    Some(name) => Ok(Err(Realpath::Named(name))),
                    None => Err(UploadError::NotUtf8),
                },
                _ => Err(UploadError::Unexpected),
            },
            Realpath::Named(name) => match event {
                Event::NameEnd => Ok(Ok(name)),
                _ => Err(UploadError::Unexpected),
            },
        }
    }
}

/// Bytes that were read and not yet taken by the protocol.
pub struct Leftover {
    bytes: Vec<u8>,
    at: usize,
}

impl View for Leftover {
    type V = Seq<u8>;

    closed spec fn view(&self) -> Seq<u8> {
        self.bytes@.skip(self.at as int)
    }
}

impl Leftover {
    pub closed spec fn wf(&self) -> bool {
        self.at <= self.bytes@.len()
    }

    pub fn new() -> (r: Self)
        ensures
            r.wf(),
            r@.len() == 0,
    {
        Leftover { bytes: Vec::new(), at: 0 }
    }

    /// Whether anything is left.
    pub fn is_empty(&self) -> (r: bool)
        requires
            self.wf(),
        ensures
            r == (self@.len() == 0),
    {
        self.at == self.bytes.len()
    }

    /// What is left.
    pub fn rest(&self) -> (r: &[u8])
        requires
            self.wf(),
        ensures
            r@ == self@,
    {
        let r = vstd::slice::slice_subrange(self.bytes.as_slice(), self.at, self.bytes.len());
        assert(r@ =~= self@);
        r
    }

    /// The protocol took so many of the bytes. Taking none of them means that it
    /// will never take any.
    pub fn used(&mut self, count: usize) -> (r: Result<(), UploadError>)
        requires
            old(self).wf(),
            count <= old(self)@.len(),
        ensures
            final(self).wf(),
            final(self)@ == old(self)@.skip(count as int),
            match r {
                Ok(()) => count > 0,
                Err(error) => error == UploadError::Stalled && count == 0,
            },
    {
        assert(self.at + count <= self.bytes@.len());
        assert(self.at + count <= self.bytes.len());
        assert(self.bytes@.skip(self.at as int).skip(count as int) =~= self.bytes@.skip(
            self.at + count,
        ));
        self.at = self.at + count;
        if self.at == self.bytes.len() {
            assert(self.bytes@.skip(self.at as int) =~= Seq::<u8>::empty());
            self.bytes = Vec::new();
            self.at = 0;
            assert(self.bytes@.skip(self.at as int) =~= Seq::<u8>::empty());
        }
        if count == 0 {
            return Err(UploadError::Stalled);
        }
        Ok(())
    }

    /// Keeps bytes that the protocol has not taken yet.
    pub fn keep(&mut self, bytes: &[u8])
        requires
            old(self).wf(),
        ensures
            final(self).wf(),
            final(self)@ == old(self)@ + bytes@,
    {
        push_bytes(&mut self.bytes, bytes);
        assert(self@ =~= old(self)@ + bytes@);
    }
}

/// What a write to the channel comes to.
pub open spec fn sends(outcome: WriteOutcome, r: Result<usize, UploadError>) -> bool {
    match outcome {
        WriteOutcome::Wrote(count) => if count == 0 {
            r == Err::<usize, UploadError>(UploadError::Closed)
        } else {
            r == Ok::<usize, UploadError>(count)
        },
        WriteOutcome::WouldBlock | WriteOutcome::Interrupted => r == Ok::<usize, UploadError>(
            0,
        ),
        WriteOutcome::Failed(error) => r == Err::<usize, UploadError>(
            UploadError::WriteFailed(error),
        ),
    }
}

/// What a write to the transfer's channel came to: how many bytes it took.
pub fn sent(outcome: WriteOutcome) -> (r: Result<usize, UploadError>)
    ensures
        sends(outcome, r),
{
    match outcome {
        WriteOutcome::Wrote(count) => if count == 0 {
            Err(UploadError::Closed)
        } else {
            Ok(count)
        },
        WriteOutcome::WouldBlock | WriteOutcome::Interrupted => Ok(0),
        WriteOutcome::Failed(error) => Err(UploadError::WriteFailed(error)),
    }
}

/// The part of a payload that is next.
pub open spec fn announces(len: usize, sent: usize, announced: usize, r: Option<usize>) -> bool {
    match r {
        Some(end) => end == sent + announced && end <= len,
        None => sent + announced > len,
    }
}

/// The part of a payload that a request announced, from where the last write
/// ended: `None` where the payload is shorter than the request.
pub fn payload(len: usize, sent: usize, announced: usize) -> (r: Option<usize>)
    requires
        sent <= len,
    ensures
        announces(len, sent, announced, r),
{
    if announced > len - sent {
        return None;
    }
    Some(sent + announced)
}

/// A unique name never takes more bytes than a name may, begins with what makes
/// it unique, and goes on with the beginning of the original name.
pub proof fn a_unique_name_stays_short(name: Seq<char>, stamp: u128, index: usize)
    ensures
        match unique_name(name, stamp, index) {
            Some(unique) => {
                let prefix = unique_prefix(stamp, index);
                &&& text::byte_len(unique) <= MAX_NAME
                &&& unique.take(prefix.len() as int) == prefix
                &&& unique.skip(prefix.len() as int).len() <= name.len()
                &&& unique.skip(prefix.len() as int) == name.take(unique.len() - prefix.len())
            },
            None => true,
        },
{
    let prefix = unique_prefix(stamp, index);
    let room = MAX_NAME - text::byte_len(prefix);
    lemma_fitted(name, room);
    let rest = fitted(name, room);
    text::lemma_byte_len_concat(prefix, rest);
    assert((prefix + rest).take(prefix.len() as int) =~= prefix);
    assert((prefix + rest).skip(prefix.len() as int) =~= rest);
}

proof fn lemma_fitted(name: Seq<char>, room: int)
    ensures
        fitted(name, room).len() <= name.len(),
        fitted(name, room) == name.take(fitted(name, room).len() as int),
        fitted(name, room).len() > 0 ==> text::byte_len(fitted(name, room)) <= room,
    decreases name.len(),
{
    if name.len() == 0 || text::byte_len(name) <= room {
        assert(name.take(name.len() as int) =~= name);
    } else {
        lemma_fitted(name.drop_last(), room);
        let n = fitted(name, room).len() as int;
        assert(name.drop_last().take(n) =~= name.take(n));
    }
}

/// Two files of one drop never get the same name on the host.
pub proof fn names_of_one_drop_differ(
    left: Seq<char>,
    right: Seq<char>,
    stamp: u128,
    i: usize,
    j: usize,
)
    requires
        i != j,
    ensures
        unique_prefix(stamp, i) + left != unique_prefix(stamp, j) + right,
{
    reveal_strlit("-");
    let head = "starcom-"@ + text::digits(stamp as nat) + "-"@;
    let a = text::digits(i as nat);
    let b = text::digits(j as nat);
    text::lemma_digits(i as nat);
    text::lemma_digits(j as nat);
    let x = unique_prefix(stamp, i) + left;
    let y = unique_prefix(stamp, j) + right;
    if x == y {
        let h = head.len() as int;
        assert forall|k: int| 0 <= k < a.len() && k < b.len() implies a[k] == b[k] by {
            assert(x[h + k] == a[k]);
            assert(y[h + k] == b[k]);
        }
        if a.len() < b.len() {
            assert(x[h + a.len()] == '-');
            assert(y[h + a.len()] == b[a.len() as int]);
            assert(text::is_digit(b[a.len() as int]));
        } else if b.len() < a.len() {
            assert(y[h + b.len()] == '-');
            assert(x[h + b.len()] == a[b.len() as int]);
            assert(text::is_digit(a[b.len() as int]));
        } else {
            assert(a =~= b);
        }
    }
}

/// A name is usable on the host if it is one component of at most 255 bytes that is not
/// a directory's and holds no control character.
pub proof fn which_names_are_usable(name: Seq<char>)
    ensures
        usable_name(name) <==> {
            &&& 0 < name.len()
            &&& text::byte_len(name) <= 255
            &&& name != seq!['.']
            &&& name != seq!['.', '.']
            &&& forall|i: int|
                0 <= i < name.len() ==> #[trigger] name[i] != '/' && name[i] != '\\'
                    && !text::control(name[i])
        },
{
    reveal_strlit(".");
    reveal_strlit("..");
    assert("."@ =~= seq!['.']);
    assert(".."@ =~= seq!['.', '.']);
    if forall|i: int|
        0 <= i < name.len() ==> #[trigger] name[i] != '/' && name[i] != '\\' && !text::control(
            name[i],
        ) {
        assert(!name.contains('/'));
        assert(!name.contains('\\'));
        assert(!text::has_control(name));
    }
    if usable_name(name) {
        assert forall|i: int| 0 <= i < name.len() implies #[trigger] name[i] != '/' && name[i]
            != '\\' && !text::control(name[i]) by {
            assert(name.contains(name[i]));
        }
    }
}

/// A directory is usable if it is an absolute path of at most 1024 bytes without
/// control characters.
pub proof fn which_directories_are_usable(dir: Seq<char>)
    ensures
        usable_directory(dir) <==> dir.len() > 0 && dir[0] == '/' && text::byte_len(dir) <= 1024
            && !text::has_control(dir),
{
}

/// As much of a name is kept, from its beginning, as there is room for: what is kept
/// fits, and one more character would not.
pub proof fn as_much_of_a_name_is_kept_as_fits(name: Seq<char>, room: int)
    requires
        room >= 0,
    ensures
        ({
            let kept = fitted(name, room);
            &&& kept.len() <= name.len()
            &&& kept == name.take(kept.len() as int)
            &&& text::byte_len(kept) <= room || kept.len() == 0
            &&& kept.len() < name.len() ==> text::byte_len(name.take(kept.len() as int + 1)) > room
        }),
    decreases name.len(),
{
    if name.len() == 0 || text::byte_len(name) <= room {
        assert(name.take(name.len() as int) =~= name);
    } else {
        let d = name.drop_last();
        as_much_of_a_name_is_kept_as_fits(d, room);
        let kept = fitted(name, room);
        assert(d.take(kept.len() as int) =~= name.take(kept.len() as int));
        if kept.len() < d.len() {
            assert(d.take(kept.len() as int + 1) =~= name.take(kept.len() as int + 1));
        } else {
            assert(name.take(kept.len() as int + 1) =~= name);
        }
    }
}

/// A unique name begins with the program, the time and the place in the drop.
pub proof fn what_makes_a_name_unique(stamp: u128, index: usize)
    ensures
        unique_prefix(stamp, index) == "starcom-"@ + text::digits(stamp as nat) + seq!['-']
            + text::digits(index as nat) + seq!['-'],
{
    reveal_strlit("-");
    assert("-"@ =~= seq!['-']);
}

/// A directory and a name are joined by exactly one separator.
pub proof fn one_separator_stands_between(dir: Seq<char>, name: Seq<char>)
    requires
        !(dir.len() > 0 && dir.last() == '/'),
    ensures
        joined(dir, name) == dir + seq!['/'] + name,
        joined(dir.push('/'), name) == dir + seq!['/'] + name,
{
    assert(joined(dir, name) =~= dir + seq!['/'] + name);
    assert(joined(dir.push('/'), name) =~= dir + seq!['/'] + name);
}

/// Rounding goes to the nearest whole number, and to the even one of two that are as
/// near.
pub proof fn rounding_goes_to_the_nearest(n: nat, unit: nat)
    requires
        unit > 0,
    ensures
        2 * (rounded(n, unit) * unit - n) <= unit,
        2 * (n - rounded(n, unit) * unit) <= unit,
        2 * (rounded(n, unit) * unit - n) == unit || 2 * (n - rounded(n, unit) * unit) == unit
            ==> rounded(n, unit) % 2 == 0,
{
    let whole = n / unit;
    let rest = n % unit;
    assert(n == whole * unit + rest && rest < unit) by (nonlinear_arith)
        requires
            whole == n / unit,
            rest == n % unit,
            unit > 0,
    ;
    assert((whole + 1) * unit == whole * unit + unit) by (nonlinear_arith);
}

/// A size that a double-precision number holds exactly is told to the nearest mebibyte.
pub proof fn a_size_is_told_to_the_nearest_mebibyte(bytes: nat)
    requires
        bytes < 0x20_0000_0000_0000,
    ensures
        as_double(bytes) == bytes,
        2 * (mebibytes(bytes) * 1_048_576 - bytes) <= 1_048_576,
        2 * (bytes - mebibytes(bytes) * 1_048_576) <= 1_048_576,
{
    assert(bytes / 1 == bytes);
    assert(precision(bytes, 1) == 1);
    rounding_goes_to_the_nearest(bytes, 1);
    assert(bytes % 1 == 0);
    rounding_goes_to_the_nearest(bytes, 1_048_576);
}

/// Sizes add up, and one file above 32 MiB is enough to ask.
pub proof fn one_large_file_is_enough(files: Seq<(String, u64)>, file: (String, u64))
    ensures
        total_size(Seq::empty()) == 0,
        ({
            let (_, size) = file;
            &&& total_size(files.push(file)) == total_size(files) + size
            &&& any_oversize(files.push(file)) <==> any_oversize(files) || size > 33_554_432
        }),
        !any_oversize(Seq::empty()),
{
    let more = files.push(file);
    assert(more.drop_last() =~= files);
    if any_oversize(files) {
        let i = choose|i: int| 0 <= i < files.len() && (#[trigger] files[i]).1 > MAX_FILE_BYTES;
        assert(more[i].1 > MAX_FILE_BYTES);
    }
    let (_, size) = file;
    if size > 33_554_432 {
        assert(more[files.len() as int].1 > MAX_FILE_BYTES);
    }
    if any_oversize(more) {
        let i = choose|i: int| 0 <= i < more.len() && (#[trigger] more[i]).1 > MAX_FILE_BYTES;
        if i < files.len() {
            assert(files[i].1 > MAX_FILE_BYTES);
        }
    }
}

/// The question names the one file and its size, or how many files there are and their
/// size together.
pub proof fn the_question_names_the_size(files: Seq<(String, u64)>)
    ensures
        files.len() > 1 ==> oversize_text(files) == text::digits(files.len()) + " files, "@
            + text::digits(mebibytes(total_size(files)))
            + " MiB total (limit 32 MiB each). Upload anyway?"@,
        files.len() == 1 ==> ({
            let (name, size) = files[0];
            oversize_text(files) == name@ + " is "@ + text::digits(mebibytes(size as nat))
                + " MiB (limit 32 MiB). Upload anyway?"@
        }),
{
}

/// A dropped file is uploaded if the upload is still wanted, its name can be used and
/// made unique, and it is a regular file that is not too large; then it keeps its name
/// and its size.
pub proof fn which_files_are_uploaded(
    file: LocalFile,
    stamp: u128,
    index: usize,
    max_bytes: Option<u64>,
)
    ensures
        planned(file, stamp, index, max_bytes) is Ok <==> {
            &&& file.running
            &&& file.name is Some
            &&& usable_name(file.name->0@)
            &&& unique_name(file.name->0@, stamp, index) is Some
            &&& match file.stat {
                Ok((regular, len)) => regular && (max_bytes is None || len <= max_bytes->0),
                Err(_) => false,
            }
        },
        planned(file, stamp, index, max_bytes) is Ok ==> ({
            let plan = planned(file, stamp, index, max_bytes)->Ok_0;
            &&& plan.name == file.name->0@
            &&& Some(plan.remote_name) == unique_name(file.name->0@, stamp, index)
            &&& match file.stat {
                Ok((_, len)) => plan.total == len,
                Err(_) => false,
            }
        }),
        !file.running ==> planned(file, stamp, index, max_bytes) == Err::<Plan, UploadError>(
            UploadError::Cancelled,
        ),
{
}

/// Files are prepared in their order, each with its own place, and one that is refused
/// refuses them all.
pub proof fn files_are_prepared_in_order(
    files: Seq<LocalFile>,
    file: LocalFile,
    stamp: u128,
    max_bytes: Option<u64>,
)
    requires
        files.len() < usize::MAX,
    ensures
        all_planned(Seq::empty(), stamp, max_bytes) == Ok::<Seq<Plan>, UploadError>(Seq::empty()),
        ({
            let before = all_planned(files, stamp, max_bytes);
            let one = planned(file, stamp, files.len() as usize, max_bytes);
            let after = all_planned(files.push(file), stamp, max_bytes);
            &&& before is Err ==> after == before
            &&& before is Ok && one is Ok ==> after is Ok && after->Ok_0 == before->Ok_0.push(
                one->Ok_0,
            )
            &&& before is Ok && one is Err ==> after is Err && after->Err_0 == one->Err_0
        }),
{
    assert(files.push(file).drop_last() =~= files);
}

/// A failed upload takes back everything that it left on the host and nothing else: the
/// file that was opened last, and then what was stored, the latest first.
pub proof fn a_failed_upload_takes_back_what_it_left(upload: Upload, i: int)
    requires
        upload.wf(),
        0 <= i < upload.stored@.len(),
    ensures
        ({
            let left = leavings(upload);
            let n = upload.stored@.len();
            &&& left.len() == n + (if upload.open {
                1int
            } else {
                0int
            })
            &&& upload.open ==> left[0] == upload_path(upload, n as int)
            &&& left[left.len() - 1 - i] == upload.stored@[i]@
        }),
        upload_path(upload, i) == joined(upload.dir@, upload.files@[i].remote_name@),
{
}

/// A file is written from where the host has it, as long as it is wanted, and closed when
/// all of it is written; one that became longer or shorter is not uploaded.
pub proof fn a_file_that_changed_is_not_uploaded(
    before: Put,
    running: bool,
    count: usize,
    r: Result<Chunk, UploadError>,
)
    requires
        before.wf(),
        reads(before, running, count, r),
    ensures
        !running ==> r == Err::<Chunk, UploadError>(UploadError::Cancelled),
        running && count == 0 && before.offset == before.expected ==> r == Ok::<Chunk, UploadError>(
            Chunk::Close,
        ),
        running && count == 0 && before.offset < before.expected ==> r == Err::<Chunk, UploadError>(
            UploadError::Changed,
        ),
        running && count > 0 && before.offset + count <= before.expected ==> r == Ok::<
            Chunk,
            UploadError,
        >(Chunk::Write { offset: before.offset, count }),
        running && count > 0 && before.offset + count > before.expected ==> r == Err::<
            Chunk,
            UploadError,
        >(UploadError::Changed),
{
}

/// A request was carried out exactly if the host says zero.
pub proof fn only_zero_is_a_success(event: Event, r: Result<(), UploadError>, code: u32)
    requires
        confirms(event, r),
    ensures
        r is Ok <==> event == Event::Status(0),
        event == Event::Status(code) && code != 0 ==> r == Err::<(), UploadError>(
            UploadError::Refused(code),
        ),
        !(event is Status) ==> r == Err::<(), UploadError>(UploadError::Unexpected),
{
}

/// A file is open exactly if the host gave a handle for it, and what an upload removes
/// again includes it from then on.
pub proof fn a_file_is_open_with_its_handle(
    before: Upload,
    answer: Event,
    r: Result<Vec<u8>, UploadError>,
    after: Upload,
    handle: Result<Vec<u8>, UploadError>,
)
    requires
        opens_next(before, answer, r, after),
        opens(answer, handle),
    ensures
        answer is Handle ==> r == Ok::<Vec<u8>, UploadError>(answer->Handle_0) && after.open,
        !(answer is Handle) ==> r is Err && !after.open,
        answer is Status ==> r->Err_0 == UploadError::Refused(answer->Status_0),
        after.stored == before.stored && after.files == before.files && after.dir == before.dir,
        handle == r,
        after.open ==> leavings(after).len() == before.stored@.len() + 1,
{
}

/// An upload either stored every file, and gives their paths in their order, or gives
/// back everything that it left.
pub proof fn an_upload_is_all_or_nothing(
    before: Upload,
    r: Result<Vec<String>, Vec<String>>,
    i: int,
)
    requires
        before.wf(),
        finishes(before, r),
    ensures
        r is Ok <==> before.stored@.len() == before.files@.len(),
        r is Ok ==> r->Ok_0@.len() == before.files@.len(),
        r is Ok && 0 <= i < before.files@.len() ==> r->Ok_0@[i]@ == joined(
            before.dir@,
            before.files@[i].remote_name@,
        ),
        r is Err ==> text::strings(r->Err_0@) == leavings(before),
{
    if r is Ok {
        let paths = text::strings(r->Ok_0@);
        assert(paths.len() == before.files@.len());
        if 0 <= i < before.files@.len() {
            assert(paths[i] == upload_path(before, i));
        }
    }
}

/// The next file goes into the directory under its own name, as long as the upload is
/// wanted and the path has at most 1024 bytes; behind the last file there is none.
pub proof fn where_the_next_file_goes(
    before: Upload,
    running: bool,
    r: Result<Option<String>, UploadError>,
)
    requires
        before.wf(),
        goes_to(before, running, r),
    ensures
        before.stored@.len() == before.files@.len() ==> r is Ok && r->Ok_0 is None,
        before.stored@.len() < before.files@.len() ==> ({
            let path = joined(
                before.dir@,
                before.files@[before.stored@.len() as int].remote_name@,
            );
            &&& running && text::byte_len(path) <= 1024 ==> r is Ok && r->Ok_0 is Some
                && r->Ok_0->0@ == path
            &&& !running ==> r is Err && r->Err_0 == UploadError::Cancelled
            &&& running && text::byte_len(path) > 1024 ==> r is Err && r->Err_0
                == UploadError::PathTooLong
        }),
{
}

/// A write to the channel took what it took; none at all is a closed channel, and one
/// that would block took nothing.
pub proof fn what_a_channel_took(outcome: WriteOutcome, r: Result<usize, UploadError>)
    requires
        sends(outcome, r),
    ensures
        outcome is Wrote && outcome->Wrote_0 > 0 ==> r == Ok::<usize, UploadError>(
            outcome->Wrote_0,
        ),
        outcome is Wrote && outcome->Wrote_0 == 0 ==> r == Err::<usize, UploadError>(
            UploadError::Closed,
        ),
        outcome is WouldBlock || outcome is Interrupted ==> r == Ok::<usize, UploadError>(0),
        outcome is Failed ==> r is Err && r->Err_0 is WriteFailed,
{
}

/// A file may be uploaded if it is no larger than the bound, and of any size without one.
pub proof fn which_sizes_may_be_uploaded(
    len: u64,
    max_bytes: Option<u64>,
    r: Result<(), UploadError>,
)
    requires
        allows(len, max_bytes, r),
    ensures
        max_bytes is None ==> r is Ok,
        max_bytes is Some ==> (r is Ok <==> len <= max_bytes->0),
        r is Err ==> r->Err_0 == UploadError::TooLarge,
{
}

/// An operation is given what was asked for, and at least thirty seconds.
pub proof fn an_operation_is_given_its_time(secs: u64, r: u64)
    requires
        gives(secs, r),
    ensures
        r >= 30 && r >= secs,
        r == 30 || r == secs,
{
}

/// A directory's name comes of an announcement, the name itself and the end, in this
/// order, and is the text of its bytes.
pub proof fn how_a_host_names_a_directory(
    before: Realpath,
    event: Event,
    r: Result<Result<String, Realpath>, UploadError>,
)
    requires
        names(before, event, r),
    ensures
        before is Start && event is NameStart && event->NameStart_0 >= 1 ==> r is Ok && r->Ok_0
            is Err && r->Ok_0->Err_0 is Announced,
        before is Start && event is NameStart && event->NameStart_0 == 0 ==> r is Err,
        before is Start && event is Status ==> r is Err && r->Err_0 == UploadError::Refused(
            event->Status_0,
        ),
        before is Announced && event is Name && vstd::utf8::valid_utf8(event->Name_0@) ==> r is Ok
            && r->Ok_0 is Err && r->Ok_0->Err_0 is Named && r->Ok_0->Err_0->Named_0@
            == vstd::utf8::decode_utf8(event->Name_0@),
        before is Named && event is NameEnd ==> r is Ok && r->Ok_0 is Ok && r->Ok_0->Ok_0
            == before->Named_0,
        r is Ok && r->Ok_0 is Ok ==> before is Named && event is NameEnd,
{
}

/// What a request announced comes next, if there is that much.
pub proof fn what_was_announced_comes_next(
    len: usize,
    sent: usize,
    announced: usize,
    r: Option<usize>,
)
    requires
        sent <= len,
        announces(len, sent, announced, r),
    ensures
        r is Some <==> sent + announced <= len,
        r is Some ==> r->0 - sent == announced,
{
}

/// A file keeps its name on the host or is not uploaded.
pub proof fn a_file_keeps_its_name(name: Option<Seq<char>>, r: Result<String, UploadError>)
    requires
        keeps_name(name, r),
    ensures
        name is None ==> r == Err::<String, UploadError>(UploadError::NameMissing),
        name is Some && usable_name(name->0) ==> r is Ok && r->Ok_0@ == name->0,
        name is Some && !usable_name(name->0) ==> r == Err::<String, UploadError>(
            UploadError::NameRefused,
        ),
{
}

/// From one to eight files are prepared at a time, all of them or none.
pub proof fn one_to_eight_files_are_prepared(
    files: Seq<LocalFile>,
    stamp: u128,
    max_bytes: Option<u64>,
    r: Result<Vec<Prepared>, UploadError>,
)
    requires
        prepares(files, stamp, max_bytes, r),
    ensures
        files.len() == 0 ==> r is Err && r->Err_0 == UploadError::NoFiles,
        files.len() > 8 ==> r is Err && r->Err_0 == UploadError::TooManyFiles,
        1 <= files.len() <= 8 ==> (r is Ok <==> all_planned(files, stamp, max_bytes) is Ok),
        r is Ok ==> plans(r->Ok_0@) == all_planned(files, stamp, max_bytes)->Ok_0,
{
}

} // verus!

//! Rules of the artifact upload: which content type an uploaded file is
//! declared with, under which names a built artifact is looked for and
//! stored, and where a package manifest states its version.

use vstd::prelude::*;
use vstd::string::StrSliceExecFns;
use vstd::string::StringExecFns;

use crate::config::names;
use crate::config::reads_as;

verus! {

/// The content type that goes with a file extension: archives and
/// compressed files by their kind, anything else as an executable.
pub open spec fn content_type_of(extension: Option<Seq<char>>) -> Seq<char> {
    match extension {
        Some(ext) => if ext == "gz"@ {
            "application/gzip"@
        } else if ext == "tar"@ {
            "application/x-tar"@
        } else if ext == "zip"@ {
            "application/zip"@
        } else if ext == "bz2"@ {
            "application/x-bzip2"@
        } else if ext == "xz"@ {
            "application/x-xz"@
        } else {
            "application/x-elf"@
        },
        None => "application/x-elf"@,
    }
}

/// The characters of an optional string slice.
pub open spec fn slice_text(text: Option<&str>) -> Option<Seq<char>> {
    match text {
        Some(t) => Some(t@),
        None => None,
    }
}

/// Determines the content type of a file from its extension, given
/// without the dot; `None` stands for a file without extension.
pub fn get_content_type(extension: Option<&str>) -> (content_type: &'static str)
    ensures
        content_type@ == content_type_of(slice_text(extension)),
{
    match extension {
        Some(ext) => {
            if reads_as(ext, "gz") {
                "application/gzip"
            } else if reads_as(ext, "tar") {
                "application/x-tar"
            } else if reads_as(ext, "zip") {
                "application/zip"
            } else if reads_as(ext, "bz2") {
                "application/x-bzip2"
            } else if reads_as(ext, "xz") {
                "application/x-xz"
            } else {
                "application/x-elf"
            }
        },
        None => "application/x-elf",
    }
}

/// The file names under which a built artifact is looked for, most wanted
/// first: the bare name, then the archives and compressed files of it.
pub open spec fn candidate_names(name: Seq<char>) -> Seq<Seq<char>> {
    seq![
        name,
        name + ".tar.gz"@,
        name + ".tar.bz2"@,
        name + ".tar.xz"@,
        name + ".zip"@,
        name + ".gz"@,
    ]
}

/// The key under which a version of an artifact is stored.
pub open spec fn object_key_of(name: Seq<char>, version: Seq<char>) -> Seq<char> {
    "bin/"@ + name + "/"@ + version + "/"@ + name
}

/// The key under which the latest version of an artifact is stored.
pub open spec fn latest_object_key_of(name: Seq<char>) -> Seq<char> {
    "bin/latest/"@ + name
}

/// `name` with `ending` behind it.
fn with_ending(name: &str, ending: &str) -> (file_name: String)
    ensures
        file_name@ == name@ + ending@,
{
    name.to_owned().concat(ending)
}

/// Lists the file names under which a built artifact is looked for.
pub fn candidate_file_names(name: &str) -> (file_names: Vec<String>)
    ensures
        names(file_names) == candidate_names(name@),
{
    let mut file_names: Vec<String> = Vec::new();
    file_names.push(name.to_owned());
    file_names.push(with_ending(name, ".tar.gz"));
    file_names.push(with_ending(name, ".tar.bz2"));
    file_names.push(with_ending(name, ".tar.xz"));
    file_names.push(with_ending(name, ".zip"));
    file_names.push(with_ending(name, ".gz"));
    assert(names(file_names) =~= candidate_names(name@));
    file_names
}

/// Builds the key under which a version of an artifact is stored.
pub fn object_key(name: &str, version: &str) -> (key: String)
    ensures
        key@ == object_key_of(name@, version@),
{
    let mut key = "bin/".to_owned();
    key.append(name);
    key.append("/");
    key.append(version);
    key.append("/");
    key.append(name);
    key
}

/// Builds the key under which the latest version of an artifact is stored.
pub fn latest_object_key(name: &str) -> (key: String)
    ensures
        key@ == latest_object_key_of(name@),
{
    with_ending("bin/latest/", name)
}

/// Why a manifest gave no version.
#[derive(Clone, Copy, Debug, PartialEq, Eq, Structural)]
pub enum VersionError {
    /// The line that names the version holds no `=`.
    Invalid,
    /// No line names the version.
    NotFound,
}

/// What is stripped from the ends of a run of text.
#[derive(Clone, Copy, Debug, PartialEq, Eq, Structural)]
pub enum Strip {
    Space,
    DoubleQuote,
    SingleQuote,
}

/// Whether a character is white space.
pub open spec fn is_space(c: char) -> bool {
    let code = c as u32;
    ||| 0x09 <= code <= 0x0D
    ||| code == 0x20
    ||| code == 0x85
    ||| code == 0xA0
    ||| code == 0x1680
    ||| 0x2000 <= code <= 0x200A
    ||| code == 0x2028
    ||| code == 0x2029
    ||| code == 0x202F
    ||| code == 0x205F
    ||| code == 0x3000
}

/// Whether a character is one of those to strip.
pub open spec fn strips(kind: Strip, c: char) -> bool {
    match kind {
        Strip::Space => is_space(c),
        Strip::DoubleQuote => c == '"',
        Strip::SingleQuote => c == '\'',
    }
}

/// Where the line that begins at `from` ends: at the next line feed, or at
/// the end of the text.
pub open spec fn line_end(text: Seq<char>, from: int) -> int
    decreases text.len() - from,
{
    if from < text.len() && text[from] != '\n' {
        line_end(text, from + 1)
    } else {
        from
    }
}

/// The first place from `from` up to `to` that holds no character to strip.
pub open spec fn skip_front(text: Seq<char>, kind: Strip, from: int, to: int) -> int
    decreases to - from,
{
    if from < to && strips(kind, text[from]) {
        skip_front(text, kind, from + 1, to)
    } else {
        from
    }
}

/// The end, from `to` down to `from`, before which no character to strip
/// stands.
pub open spec fn skip_back(text: Seq<char>, kind: Strip, from: int, to: int) -> int
    decreases to - from,
{
    if from < to && strips(kind, text[to - 1]) {
        skip_back(text, kind, from, to - 1)
    } else {
        to
    }
}

/// The part of `from..to` left when the characters to strip are taken
/// from both ends.
pub open spec fn stripped(text: Seq<char>, kind: Strip, from: int, to: int) -> (int, int) {
    let start = skip_front(text, kind, from, to);
    (start, skip_back(text, kind, start, to))
}

/// Whether the part `from..to` of the text begins with `word`.
pub open spec fn begins_with(text: Seq<char>, from: int, to: int, word: Seq<char>) -> bool {
    from + word.len() <= to && text.subrange(from, from + word.len()) == word
}

/// The place of the first `=` in `from..to`, or `to` where there is none.
pub open spec fn find_equals(text: Seq<char>, from: int, to: int) -> int
    decreases to - from,
{
    if from < to && text[from] != '=' {
        find_equals(text, from + 1, to)
    } else {
        from
    }
}

/// What the line `from..to` says of the version. A line that, without the
/// white space around it, begins with `version` or `package.version` names
/// the version: it is the text after the line's first `=`, without the
/// white space around it, then without double quotes and then without
/// single quotes at its ends. Such a line without `=` is invalid. Any
/// other line says nothing.
pub open spec fn version_in_line(text: Seq<char>, from: int, to: int) -> Option<
    Result<(int, int), VersionError>,
> {
    let (start, end) = stripped(text, Strip::Space, from, to);
    if begins_with(text, start, end, "version"@) || begins_with(
        text,
        start,
        end,
        "package.version"@,
    ) {
        let equals = find_equals(text, start, end);
        if equals < end {
            let (a, b) = stripped(text, Strip::Space, equals + 1, end);
            let (c, d) = stripped(text, Strip::DoubleQuote, a, b);
            Some(Ok(stripped(text, Strip::SingleQuote, c, d)))
        } else {
            Some(Err(VersionError::Invalid))
        }
    } else {
        None
    }
}

/// Where the text states the version, reading the lines from the one that
/// begins at `from`: what the first line that names the version says.
pub open spec fn version_from(text: Seq<char>, from: int) -> Result<(int, int), VersionError>
    decreases text.len() - from,
{
    let end = line_end(text, from);
    match version_in_line(text, from, end) {
        Some(found) => found,
        None => if from <= end < text.len() {
            version_from(text, end + 1)
        } else {
            Err(VersionError::NotFound)
        },
    }
}

/// The version that a manifest states.
pub open spec fn version_of(text: Seq<char>) -> Result<Seq<char>, VersionError> {
    match version_from(text, 0) {
        Ok((from, to)) => Ok(text.subrange(from, to)),
        Err(error) => Err(error),
    }
}

/// The characters of a text.
fn chars_of(text: &str) -> (chars: Vec<char>)
    ensures
        chars@ == text@,
{
    broadcast use vstd::string::group_string_axioms;

    let mut chars: Vec<char> = Vec::new();
    for c in iter: text.chars()
        invariant
            iter.seq() == text@,
            chars@.len() == iter.index(),
            forall|i: int| 0 <= i < chars@.len() ==> chars@[i] == text@[i],
    {
        chars.push(c);
    }
    assert(chars@ =~= text@);
    chars
}

fn space(c: char) -> (white: bool)
    ensures
        white == is_space(c),
{
    let code = c as u32;
    (0x09 <= code && code <= 0x0D) || code == 0x20 || code == 0x85 || code == 0xA0 || code
        == 0x1680 || (0x2000 <= code && code <= 0x200A) || code == 0x2028 || code == 0x2029
        || code == 0x202F || code == 0x205F || code == 0x3000
}

fn strips_char(kind: Strip, c: char) -> (stripped: bool)
    ensures
        stripped == strips(kind, c),
{
    match kind {
        Strip::Space => space(c),
        Strip::DoubleQuote => c == '"',
        Strip::SingleQuote => c == '\'',
    }
}

fn line_end_at(chars: &Vec<char>, from: usize) -> (end: usize)
    requires
        from <= chars@.len(),
    ensures
        end == line_end(chars@, from as int),
        from <= end <= chars@.len(),
{
    let mut end = from;
    while end < chars.len() && chars[end] != '\n'
        invariant
            from <= end <= chars@.len(),
            line_end(chars@, from as int) == line_end(chars@, end as int),
        decreases chars@.len() - end,
    {
        end += 1;
    }
    end
}

fn strip(chars: &Vec<char>, kind: Strip, from: usize, to: usize) -> (part: (usize, usize))
    requires
        from <= to <= chars@.len(),
    ensures
        (part.0 as int, part.1 as int) == stripped(chars@, kind, from as int, to as int),
        from <= part.0 <= part.1 <= to,
{
    let mut start = from;
    while start < to && strips_char(kind, chars[start])
        invariant
            from <= start <= to <= chars@.len(),
            skip_front(chars@, kind, from as int, to as int) == skip_front(
                chars@,
                kind,
                start as int,
                to as int,
            ),
        decreases to - start,
    {
        start += 1;
    }
    let mut end = to;
    while start < end && strips_char(kind, chars[end - 1])
        invariant
            start <= end <= to <= chars@.len(),
            skip_back(chars@, kind, start as int, to as int) == skip_back(
                chars@,
                kind,
                start as int,
                end as int,
            ),
        decreases end - start,
    {
        end -= 1;
    }
    (start, end)
}

fn begins_with_at(chars: &Vec<char>, from: usize, to: usize, word: &Vec<char>) -> (begins: bool)
    requires
        from <= to <= chars@.len(),
    ensures
        begins == begins_with(chars@, from as int, to as int, word@),
{
    if word.len() > to - from {
        return false;
    }
    let mut k: usize = 0;
    while k < word.len()
        invariant
            k <= word@.len(),
            from + word@.len() <= to <= chars@.len(),
            forall|j: int| 0 <= j < k ==> chars@[from + j] == word@[j],
        decreases word@.len() - k,
    {
        if chars[from + k] != word[k] {
            assert(chars@.subrange(from as int, from + word@.len())[k as int] != word@[k as int]);
            return false;
        }
        k += 1;
    }
    assert(chars@.subrange(from as int, from + word@.len()) =~= word@);
    true
}

fn find_equals_at(chars: &Vec<char>, from: usize, to: usize) -> (place: usize)
    requires
        from <= to <= chars@.len(),
    ensures
        place == find_equals(chars@, from as int, to as int),
        from <= place <= to,
{
    let mut place = from;
    while place < to && chars[place] != '='
        invariant
            from <= place <= to <= chars@.len(),
            find_equals(chars@, from as int, to as int) == find_equals(
                chars@,
                place as int,
                to as int,
            ),
        decreases to - place,
    {
        place += 1;
    }
    place
}

/// Finds the version that a package manifest states: the first line that
/// names the version decides.
pub fn version_in_manifest(content: &str) -> (version: Result<String, VersionError>)
    ensures
        match version {
            Ok(text) => version_of(content@) == Ok::<Seq<char>, VersionError>(text@),
            Err(error) => version_of(content@) == Err::<Seq<char>, VersionError>(error),
        },
{
    let chars = chars_of(content);
    let key = chars_of("version");
    let package_key = chars_of("package.version");
    let mut from: usize = 0;
    loop
        invariant
            from <= chars@.len(),
            chars@ == content@,
            key@ == "version"@,
            package_key@ == "package.version"@,
            version_from(chars@, 0) == version_from(chars@, from as int),
        decreases chars@.len() - from,
    {
        let end = line_end_at(&chars, from);
        let (start, stop) = strip(&chars, Strip::Space, from, end);
        if begins_with_at(&chars, start, stop, &key) || begins_with_at(
            &chars,
            start,
            stop,
            &package_key,
        ) {
            let equals = find_equals_at(&chars, start, stop);
            if equals < stop {
                let (a, b) = strip(&chars, Strip::Space, equals + 1, stop);
                let (c, d) = strip(&chars, Strip::DoubleQuote, a, b);
                let (e, f) = strip(&chars, Strip::SingleQuote, c, d);
                return Ok(content.substring_char(e, f).to_owned());
            } else {
                return Err(VersionError::Invalid);
            }
        }
        if end >= chars.len() {
            return Err(VersionError::NotFound);
        }
        from = end + 1;
    }
}

} // verus!

//! The rules that a proposed file or directory name has to pass before any
//! change is made, and two checks on paths.

use crate::error::{AppError, AppErrorView};
use crate::fs::paths::{file_name, is_hidden};
use crate::text::{chars_of, concat, contains_text, has_char, has_text};
use vstd::prelude::*;
use vstd::string::*;

verus! {

/// White space as Unicode defines it.
pub open spec fn is_whitespace(c: char) -> bool {
    let x = c as u32;
    ||| 0x09 <= x <= 0x0d
    ||| x == 0x20
    ||| x == 0x85
    ||| x == 0xa0
    ||| x == 0x1680
    ||| 0x2000 <= x <= 0x200a
    ||| x == 0x2028
    ||| x == 0x2029
    ||| x == 0x202f
    ||| x == 0x205f
    ||| x == 0x3000
}

/// A control character: the ranges U+0000 to U+001F and U+007F to U+009F.
pub open spec fn is_control(c: char) -> bool {
    let x = c as u32;
    x <= 0x1f || (0x7f <= x <= 0x9f)
}

/// A name with nothing in it but white space; the empty name is one.
pub open spec fn is_blank(name: Seq<char>) -> bool {
    forall|i: int| 0 <= i < name.len() ==> is_whitespace(#[trigger] name[i])
}

/// The first of the forbidden characters, in the order `< > : " | ? * / \`,
/// that occurs anywhere in the name. The last two are the path separators: a
/// name is one component and cannot lead into another directory.
pub open spec fn first_forbidden(name: Seq<char>) -> Option<char> {
    if name.contains('<') {
        Some('<')
    } else if name.contains('>') {
        Some('>')
    } else if name.contains(':') {
        Some(':')
    } else if name.contains('"') {
        Some('"')
    } else if name.contains('|') {
        Some('|')
    } else if name.contains('?') {
        Some('?')
    } else if name.contains('*') {
        Some('*')
    } else if name.contains('/') {
        Some('/')
    } else if name.contains('\\') {
        Some('\\')
    } else {
        None
    }
}

/// Whether any character of the name is a control character.
pub open spec fn has_control(name: Seq<char>) -> bool {
    exists|i: int| 0 <= i < name.len() && is_control(#[trigger] name[i])
}

/// The number of characters before the first dot, or the whole length.
pub open spec fn base_len(name: Seq<char>) -> nat
    decreases name.len(),
{
    if name.len() == 0 || name[0] == '.' {
        0
    } else {
        1 + base_len(name.subrange(1, name.len() as int))
    }
}

/// The name up to its first dot: what is left once any extension is ignored.
pub open spec fn base_of(name: Seq<char>) -> Seq<char> {
    name.subrange(0, base_len(name) as int)
}

/// The code of a character with the letters `a` to `z` taken as `A` to `Z`.
pub open spec fn fold_case(c: char) -> int {
    if 'a' <= c && c <= 'z' {
        c as int - 32
    } else {
        c as int
    }
}

/// Equal once the case of the letters `a` to `z` is ignored.
pub open spec fn same_ignoring_case(a: Seq<char>, b: Seq<char>) -> bool {
    &&& a.len() == b.len()
    &&& forall|i: int| 0 <= i < a.len() ==> fold_case(#[trigger] a[i]) == fold_case(b[i])
}

/// The device names that a file may not bear, whatever its extension.
pub open spec fn reserved_names() -> Seq<Seq<char>> {
    seq![
        "CON"@,
        "PRN"@,
        "AUX"@,
        "NUL"@,
        "COM1"@,
        "COM2"@,
        "COM3"@,
        "COM4"@,
        "COM5"@,
        "COM6"@,
        "COM7"@,
        "COM8"@,
        "COM9"@,
        "LPT1"@,
        "LPT2"@,
        "LPT3"@,
        "LPT4"@,
        "LPT5"@,
        "LPT6"@,
        "LPT7"@,
        "LPT8"@,
        "LPT9"@,
    ]
}

/// Whether the name, up to its first dot and whatever its case, is one of
/// the reserved device names.
pub open spec fn is_reserved(name: Seq<char>) -> bool {
    exists|k: int|
        0 <= k < reserved_names().len() && same_ignoring_case(
            base_of(name),
            #[trigger] reserved_names()[k],
        )
}

/// Whether the name ends in a dot or a space.
pub open spec fn ends_badly(name: Seq<char>) -> bool {
    name.len() > 0 && (name.last() == '.' || name.last() == ' ')
}

/// Why a name is refused, or nothing where it passes. The rules are tried in
/// this order: blank, forbidden character, control character, reserved name,
/// trailing dot or space.
pub open spec fn name_rejection(name: Seq<char>) -> Option<Seq<char>> {
    if is_blank(name) {
        Some("File name cannot be empty"@)
    } else if first_forbidden(name) is Some {
        Some("File name cannot contain '"@ + seq![first_forbidden(name)->0] + "'"@)
    } else if has_control(name) {
        Some("File name cannot contain control characters"@)
    } else if is_reserved(name) {
        Some("'"@ + name + "' is a reserved name"@)
    } else if ends_badly(name) {
        Some("File name cannot end with a dot or space"@)
    } else {
        None
    }
}

fn char_is_whitespace(c: char) -> (r: bool)
    ensures
        r == is_whitespace(c),
{
    let x: u32 = c as u32;
    (0x09 <= x && x <= 0x0d) || x == 0x20 || x == 0x85 || x == 0xa0 || x == 0x1680 || (0x2000
        <= x && x <= 0x200a) || x == 0x2028 || x == 0x2029 || x == 0x202f || x == 0x205f || x
        == 0x3000
}

fn char_is_control(c: char) -> (r: bool)
    ensures
        r == is_control(c),
{
    let x: u32 = c as u32;
    x <= 0x1f || (0x7f <= x && x <= 0x9f)
}

fn char_fold_case(c: char) -> (x: u32)
    ensures
        x == fold_case(c),
{
    let code: u32 = c as u32;
    if 97 <= code && code <= 122 {
        code - 32
    } else {
        code
    }
}

fn all_whitespace(chars: &Vec<char>) -> (r: bool)
    ensures
        r == is_blank(chars@),
{
    let mut i: usize = 0;
    while i < chars.len()
        invariant
            i <= chars.len(),
            forall|j: int| 0 <= j < i ==> is_whitespace(#[trigger] chars@[j]),
        decreases chars.len() - i,
    {
        if !char_is_whitespace(chars[i]) {
            return false;
        }
        i = i + 1;
    }
    true
}

fn any_control(chars: &Vec<char>) -> (r: bool)
    ensures
        r == has_control(chars@),
{
    let mut i: usize = 0;
    while i < chars.len()
        invariant
            i <= chars.len(),
            forall|j: int| 0 <= j < i ==> !is_control(#[trigger] chars@[j]),
        decreases chars.len() - i,
    {
        if char_is_control(chars[i]) {
            return true;
        }
        i = i + 1;
    }
    false
}

fn find_forbidden(chars: &Vec<char>) -> (r: Option<char>)
    ensures
        r == first_forbidden(chars@),
{
    if has_char(chars, '<') {
        Some('<')
    } else if has_char(chars, '>') {
        Some('>')
    } else if has_char(chars, ':') {
        Some(':')
    } else if has_char(chars, '"') {
        Some('"')
    } else if has_char(chars, '|') {
        Some('|')
    } else if has_char(chars, '?') {
        Some('?')
    } else if has_char(chars, '*') {
        Some('*')
    } else if has_char(chars, '/') {
        Some('/')
    } else if has_char(chars, '\\') {
        Some('\\')
    } else {
        None
    }
}

/// The base length is where the first dot stands.
proof fn lemma_base_len_is(name: Seq<char>, k: int)
    requires
        0 <= k <= name.len(),
        forall|j: int| 0 <= j < k ==> name[j] != '.',
        k < name.len() ==> name[k] == '.',
    ensures
        base_len(name) == k,
    decreases name.len(),
{
    if name.len() == 0 || name[0] == '.' {
    } else {
        let rest = name.subrange(1, name.len() as int);
        assert forall|j: int| 0 <= j < k - 1 implies rest[j] != '.' by {
            assert(rest[j] == name[j + 1]);
        }
        if k < name.len() {
            assert(rest[k - 1] == name[k]);
        }
        lemma_base_len_is(rest, k - 1);
    }
}

fn base_length(chars: &Vec<char>) -> (k: usize)
    ensures
        k == base_len(chars@),
        k <= chars.len(),
{
    let mut i: usize = 0;
    while i < chars.len() && chars[i] != '.'
        invariant
            i <= chars.len(),
            forall|j: int| 0 <= j < i ==> chars@[j] != '.',
        decreases chars.len() - i,
    {
        i = i + 1;
    }
    proof {
        lemma_base_len_is(chars@, i as int);
    }
    i
}

/// Whether the first `len` characters are `word`, whatever their case.
fn base_is(chars: &Vec<char>, len: usize, word: &str) -> (r: bool)
    requires
        len <= chars.len(),
    ensures
        r == same_ignoring_case(chars@.subrange(0, len as int), word@),
{
    let w: Vec<char> = chars_of(word);
    if w.len() != len {
        return false;
    }
    let ghost base = chars@.subrange(0, len as int);
    let mut i: usize = 0;
    while i < len
        invariant
            i <= len <= chars.len(),
            w.len() == len,
            w@ == word@,
            base == chars@.subrange(0, len as int),
            forall|j: int| 0 <= j < i ==> fold_case(#[trigger] base[j]) == fold_case(w@[j]),
        decreases len - i,
    {
        assert(base[i as int] == chars@[i as int]);
        if char_fold_case(chars[i]) != char_fold_case(w[i]) {
            return false;
        }
        i = i + 1;
    }
    true
}

fn base_is_reserved(chars: &Vec<char>) -> (r: bool)
    ensures
        r == is_reserved(chars@),
{
    let len: usize = base_length(chars);
    let ghost names = reserved_names();
    let ghost base = base_of(chars@);
    if base_is(chars, len, "CON") {
        assert(names[0] == "CON"@);
        return true;
    }
    if base_is(chars, len, "PRN") {
        assert(names[1] == "PRN"@);
        return true;
    }
    if base_is(chars, len, "AUX") {
        assert(names[2] == "AUX"@);
        return true;
    }
    if base_is(chars, len, "NUL") {
        assert(names[3] == "NUL"@);
        return true;
    }
    if base_is(chars, len, "COM1") {
        assert(names[4] == "COM1"@);
        return true;
    }
    if base_is(chars, len, "COM2") {
        assert(names[5] == "COM2"@);
        return true;
    }
    if base_is(chars, len, "COM3") {
        assert(names[6] == "COM3"@);
        return true;
    }
    if base_is(chars, len, "COM4") {
        assert(names[7] == "COM4"@);
        return true;
    }
    if base_is(chars, len, "COM5") {
        assert(names[8] == "COM5"@);
        return true;
    }
    if base_is(chars, len, "COM6") {
        assert(names[9] == "COM6"@);
        return true;
    }
    if base_is(chars, len, "COM7") {
        assert(names[10] == "COM7"@);
        return true;
    }
    if base_is(chars, len, "COM8") {
        assert(names[11] == "COM8"@);
        return true;
    }
    if base_is(chars, len, "COM9") {
        assert(names[12] == "COM9"@);
        return true;
    }
    if base_is(chars, len, "LPT1") {
        assert(names[13] == "LPT1"@);
        return true;
    }
    if base_is(chars, len, "LPT2") {
        assert(names[14] == "LPT2"@);
        return true;
    }
    if base_is(chars, len, "LPT3") {
        assert(names[15] == "LPT3"@);
        return true;
    }
    if base_is(chars, len, "LPT4") {
        assert(names[16] == "LPT4"@);
        return true;
    }
    if base_is(chars, len, "LPT5") {
        assert(names[17] == "LPT5"@);
        return true;
    }
    if base_is(chars, len, "LPT6") {
        assert(names[18] == "LPT6"@);
        return true;
    }
    if base_is(chars, len, "LPT7") {
        assert(names[19] == "LPT7"@);
        return true;
    }
    if base_is(chars, len, "LPT8") {
        assert(names[20] == "LPT8"@);
        return true;
    }
    if base_is(chars, len, "LPT9") {
        assert(names[21] == "LPT9"@);
        return true;
    }
    assert forall|k: int| 0 <= k < names.len() implies !same_ignoring_case(
        base,
        #[trigger] names[k],
    ) by {}
    false
}

/// The text that holds just the forbidden character `c`.
fn forbidden_text(c: char) -> (s: &'static str)
    requires
        c == '<' || c == '>' || c == ':' || c == '"' || c == '|' || c == '?' || c == '*' || c
            == '/' || c == '\\',
    ensures
        s@ == seq![c],
{
    proof {
        reveal_strlit("<");
        reveal_strlit(">");
        reveal_strlit(":");
        reveal_strlit("\"");
        reveal_strlit("|");
        reveal_strlit("?");
        reveal_strlit("*");
        reveal_strlit("/");
        reveal_strlit("\\");
    }
    let s: &'static str = if c == '<' {
        "<"
    } else if c == '>' {
        ">"
    } else if c == ':' {
        ":"
    } else if c == '"' {
        "\""
    } else if c == '|' {
        "|"
    } else if c == '?' {
        "?"
    } else if c == '*' {
        "*"
    } else if c == '/' {
        "/"
    } else {
        "\\"
    };
    assert(s@ =~= seq![c]);
    s
}

/// Checks a proposed file or directory name. The name passes exactly when
/// none of the rules refuses it; a refused name comes back as
/// `InvalidFileName` with the reason of the first rule that refuses it.
pub fn validate_file_name(name: &str) -> (r: Result<(), AppError>)
    ensures
        r is Ok <==> name_rejection(name@) is None,
        r matches Err(e) ==> e@ == AppErrorView::InvalidFileName(name_rejection(name@)->0),
{
    let chars: Vec<char> = chars_of(name);
    if all_whitespace(&chars) {
        return Err(AppError::InvalidFileName("File name cannot be empty".to_owned()));
    }
    match find_forbidden(&chars) {
        Some(c) => {
            let opening: String = concat("File name cannot contain '", forbidden_text(c));
            return Err(AppError::InvalidFileName(concat(opening.as_str(), "'")));
        },
        None => {},
    }
    if any_control(&chars) {
        return Err(
            AppError::InvalidFileName("File name cannot contain control characters".to_owned()),
        );
    }
    if base_is_reserved(&chars) {
        let opening: String = concat("'", name);
        return Err(AppError::InvalidFileName(concat(opening.as_str(), "' is a reserved name")));
    }
    let n: usize = chars.len();
    if n > 0 && (chars[n - 1] == '.' || chars[n - 1] == ' ') {
        return Err(
            AppError::InvalidFileName("File name cannot end with a dot or space".to_owned()),
        );
    }
    Ok(())
}

/// Refuses a path that holds two dots in a row anywhere in its text.
pub fn validate_path_traversal(path: &str) -> (r: Result<(), AppError>)
    ensures
        r is Ok <==> !contains_text(path@, seq!['.', '.']),
        r matches Err(e) ==> e@ == AppErrorView::InvalidPath("Path traversal is not allowed"@),
{
    let chars: Vec<char> = chars_of(path);
    let mut dots: Vec<char> = Vec::new();
    dots.push('.');
    dots.push('.');
    assert(dots@ =~= seq!['.', '.']);
    if has_text(&chars, &dots) {
        Err(AppError::InvalidPath("Path traversal is not allowed".to_owned()))
    } else {
        Ok(())
    }
}

/// Whether the file name of the path starts with a dot. A path without a
/// file name is not hidden.
pub fn is_hidden_file(path: &str) -> (r: bool)
    ensures
        r == is_hidden(path@),
{
    match file_name(path) {
        None => false,
        Some(name) => {
            let chars: Vec<char> = chars_of(name.as_str());
            chars.len() > 0 && chars[0] == '.'
        },
    }
}

/// A name that passes the rules is one plain component: it is not empty,
/// holds no separator, and is neither `.` nor `..`. Placed under a
/// directory, it names an entry of that very directory.
pub proof fn lemma_valid_name_is_plain(name: Seq<char>, base: Seq<char>)
    requires
        name_rejection(name) is None,
    ensures
        crate::fs::paths::is_plain_name(name),
        !name.contains('\\'),
        crate::fs::paths::file_name_of(crate::fs::paths::joined(base, name)) == Some(name),
{
    assert(name.len() > 0) by {
        if name.len() == 0 {
            assert(is_blank(name));
        }
    }
    assert(name != seq!['.']) by {
        if name == seq!['.'] {
            assert(name.last() == '.');
        }
    }
    assert(name != seq!['.', '.']) by {
        if name == seq!['.', '.'] {
            assert(name.last() == '.');
        }
    }
    crate::fs::paths::lemma_file_name_of_joined(base, name);
}

} // verus!

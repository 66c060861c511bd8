//! Minecraft and server versions and their textual form.
//!
//! A version text is `MAJOR.MINOR[.PATCH][-BUILD]`. What stands in front of
//! the first `-` is cut at every `.`: its pieces are the major, the minor
//! and, where there is a third, the patch number. The build number is what
//! follows the first `-`, up to the next `.` or `-`. A fourth piece in front
//! of the `-` is read as the build number too, so that `1.12.2.4` is
//! `1.12.2-4`; what follows a `-` is then not looked at. Each of these
//! pieces must be a decimal number that fits in 32 bits. What stands behind
//! the build number is not looked at.

use vstd::prelude::*;
use vstd::string::*;
use vstd::std_specs::cmp::PartialEqSpecImpl;
use crate::document::{
    as_list, as_text, document_of, field, get_field, list_value, new_table, no_entries, node,
    nodes, read_document, table_insert, table_value, text_value, write_document_pretty,
    written_pretty, Node,
};
use crate::errors::{ErrorKind, Field, VersionPart};
use crate::text::texts_of;

verus! {

/// A Minecraft release: major, minor and an optional patch number.
#[derive(Debug, Clone, Copy, PartialEq, Eq, Hash, Structural)]
pub struct MinecraftVersion(pub u32, pub u32, pub Option<u32>);

/// A Minecraft release together with the build number of a server artifact.
#[derive(Debug, Clone, Copy)]
pub struct ServerVersion {
    /// The Minecraft release; its patch number may be missing (as in `1.17`).
    pub minecraft: MinecraftVersion,
    /// The build number that the registry gave the artifact, if one is pinned.
    pub patch: Option<u32>,
}

impl PartialEq for ServerVersion {
    /// Two server versions are equal when they are builds of the same
    /// Minecraft release, whatever the build numbers.
    fn eq(&self, other: &ServerVersion) -> (r: bool) {
        self.minecraft == other.minecraft
    }
}

impl PartialEqSpecImpl for ServerVersion {
    open spec fn obeys_eq_spec() -> bool {
        true
    }

    open spec fn eq_spec(&self, other: &ServerVersion) -> bool {
        self.minecraft == other.minecraft
    }
}

/// What is known of one server: its name, what it runs, and what is added
/// to its command line.
#[derive(Debug, Clone)]
pub struct ServerConfig {
    pub version: ServerVersion,
    pub name: String,
    pub kind: String,
    pub extra_java_args: Vec<String>,
    pub extra_server_args: Vec<String>,
}

/// A server configuration as a mathematical value.
pub struct ServerConfigView {
    pub version: ServerVersion,
    pub name: Seq<char>,
    pub kind: Seq<char>,
    pub extra_java_args: Seq<Seq<char>>,
    pub extra_server_args: Seq<Seq<char>>,
}

impl View for ServerConfig {
    type V = ServerConfigView;

    open spec fn view(&self) -> ServerConfigView {
        ServerConfigView {
            version: self.version,
            name: self.name@,
            kind: self.kind@,
            extra_java_args: texts_of(self.extra_java_args@),
            extra_server_args: texts_of(self.extra_server_args@),
        }
    }
}

// ---------------------------------------------------------------------------
// Decimal numbers
// ---------------------------------------------------------------------------

pub open spec fn is_digit(c: char) -> bool {
    '0' <= c && c <= '9'
}

/// The number that a decimal digit stands for; 0 for any other character.
pub open spec fn digit_value(c: char) -> nat {
    if is_digit(c) {
        (c as u32 - '0' as u32) as nat
    } else {
        0
    }
}

/// The decimal digit for a number below ten.
pub open spec fn digit_char(d: nat) -> char
    recommends
        d < 10,
{
    ((d + 48) as u8) as char
}

pub open spec fn all_digits(s: Seq<char>) -> bool {
    forall|i: int| 0 <= i < s.len() ==> is_digit(#[trigger] s[i])
}

/// The number that a sequence of decimal digits denotes, most significant digit first.
pub open spec fn decimal_value(s: Seq<char>) -> nat
    decreases s.len(),
{
    if s.len() == 0 {
        0
    } else {
        decimal_value(s.drop_last()) * 10 + digit_value(s.last())
    }
}

/// The digits of a piece once an optional leading plus sign is set aside.
pub open spec fn unsigned_part(s: Seq<char>) -> Seq<char> {
    if s.len() > 0 && s[0] == '+' {
        s.skip(1)
    } else {
        s
    }
}

/// What a piece of a version text denotes: one or more decimal digits, with an
/// optional plus sign in front, whose value fits in 32 bits. Anything else
/// denotes no number.
pub open spec fn parse_number(s: Seq<char>) -> Option<u32> {
    let digits = unsigned_part(s);
    if digits.len() > 0 && all_digits(digits) && decimal_value(digits) <= u32::MAX {
        Some(decimal_value(digits) as u32)
    } else {
        None
    }
}

/// The shortest decimal notation of a number.
pub open spec fn decimal(n: nat) -> Seq<char>
    decreases n,
{
    if n < 10 {
        seq![digit_char(n)]
    } else {
        decimal(n / 10).push(digit_char(n % 10))
    }
}

// ---------------------------------------------------------------------------
// Pieces of a text
// ---------------------------------------------------------------------------

pub open spec fn is_separator(c: char) -> bool {
    c == '.' || c == '-'
}

pub open spec fn no_separator(s: Seq<char>) -> bool {
    forall|i: int| 0 <= i < s.len() ==> !is_separator(#[trigger] s[i])
}

/// The number of characters in front of the first separator of `s`.
pub open spec fn head_len(s: Seq<char>) -> nat
    decreases s.len(),
{
    if s.len() == 0 || is_separator(s[0]) {
        0
    } else {
        1 + head_len(s.skip(1))
    }
}

/// The text in front of the first separator.
pub open spec fn head(s: Seq<char>) -> Seq<char> {
    s.take(head_len(s) as int)
}

/// The text behind the first separator, if there is a separator.
pub open spec fn tail(s: Seq<char>) -> Option<Seq<char>> {
    if head_len(s) < s.len() {
        Some(s.skip(head_len(s) as int + 1))
    } else {
        None
    }
}

/// The piece with index `k`, counted from 0, when `s` is cut at every separator.
pub open spec fn piece(s: Seq<char>, k: nat) -> Option<Seq<char>>
    decreases k,
{
    if k == 0 {
        Some(head(s))
    } else {
        match tail(s) {
            Some(rest) => piece(rest, (k - 1) as nat),
            None => None,
        }
    }
}

// ---------------------------------------------------------------------------
// The meaning of a version text
// ---------------------------------------------------------------------------

pub open spec fn no_dash(s: Seq<char>) -> bool {
    forall|i: int| 0 <= i < s.len() ==> #[trigger] s[i] != '-'
}

/// The number of characters in front of the first `-` of `s`.
pub open spec fn release_len(s: Seq<char>) -> nat
    decreases s.len(),
{
    if s.len() == 0 || s[0] == '-' {
        0
    } else {
        1 + release_len(s.skip(1))
    }
}

/// The part of a version text that names the release: what stands in front
/// of the first `-`.
pub open spec fn release_text(s: Seq<char>) -> Seq<char> {
    s.take(release_len(s) as int)
}

/// The part of a version text that names the build: what follows the first
/// `-`, if there is one.
pub open spec fn build_text(s: Seq<char>) -> Option<Seq<char>> {
    if release_len(s) < s.len() {
        Some(s.skip(release_len(s) as int + 1))
    } else {
        None
    }
}

/// The release that the pieces of a text denote, or the component that is
/// missing or malformed: the first piece is the major number, the second the
/// minor number, the third, if there is one, the patch number. Pieces behind
/// the third are no part of the release.
pub open spec fn parse_release(s: Seq<char>) -> Result<MinecraftVersion, ErrorKind> {
    match parse_number(head(s)) {
        None => Err(ErrorKind::Parse(VersionPart::Major)),
        Some(major) => match piece(s, 1) {
            None => Err(ErrorKind::Parse(VersionPart::Minor)),
            Some(second) => match parse_number(second) {
                None => Err(ErrorKind::Parse(VersionPart::Minor)),
                Some(minor) => match piece(s, 2) {
                    None => Ok(MinecraftVersion(major, minor, None)),
                    Some(third) => match parse_number(third) {
                        None => Err(ErrorKind::Parse(VersionPart::Patch)),
                        Some(patch) => Ok(MinecraftVersion(major, minor, Some(patch))),
                    },
                },
            },
        },
    }
}

/// The Minecraft version that a text denotes: the release that the first
/// three pieces in front of the first `-` name. A fourth piece and what
/// follows the `-` belong to the build and are not looked at.
pub open spec fn parse_minecraft(s: Seq<char>) -> Result<MinecraftVersion, ErrorKind> {
    parse_release(release_text(s))
}

/// The build that a text pins. Where the part in front of the first `-`
/// has a fourth piece, that piece is the build, and what follows the `-` is
/// not looked at. Else the build is what stands between the first `-` and
/// the separator that follows it; a text without `-` then pins none. What
/// stands in the place of the build and is no number is an error.
pub open spec fn parse_build(s: Seq<char>) -> Result<Option<u32>, ErrorKind> {
    match piece(release_text(s), 3) {
        Some(fourth) => match parse_number(fourth) {
            None => Err(ErrorKind::Parse(VersionPart::Build)),
            Some(build) => Ok(Some(build)),
        },
        None => match build_text(s) {
            None => Ok(None),
            Some(rest) => match parse_number(head(rest)) {
                None => Err(ErrorKind::Parse(VersionPart::Build)),
                Some(build) => Ok(Some(build)),
            },
        },
    }
}

/// The server version that a text denotes: its release and its build. The
/// build may stand behind a `-` whether or not the release has a patch
/// number.
pub open spec fn parse_server(s: Seq<char>) -> Result<ServerVersion, ErrorKind> {
    match parse_minecraft(s) {
        Err(e) => Err(e),
        Ok(minecraft) => match parse_build(s) {
            Err(e) => Err(e),
            Ok(patch) => Ok(ServerVersion { minecraft, patch }),
        },
    }
}

/// `-BUILD`, or nothing where no build is pinned.
pub open spec fn build_suffix(build: Option<u32>) -> Seq<char> {
    match build {
        Some(b) => seq!['-'] + decimal(b as nat),
        None => Seq::empty(),
    }
}

/// `.PATCH`, or nothing where the release has no patch number.
pub open spec fn patch_suffix(patch: Option<u32>) -> Seq<char> {
    match patch {
        Some(p) => seq!['.'] + decimal(p as nat),
        None => Seq::empty(),
    }
}

/// `MAJOR.MINOR[.PATCH]`.
pub open spec fn format_minecraft(v: MinecraftVersion) -> Seq<char> {
    decimal(v.0 as nat) + seq!['.'] + decimal(v.1 as nat) + patch_suffix(v.2)
}

/// `MAJOR.MINOR[.PATCH][-BUILD]`.
pub open spec fn format_server(v: ServerVersion) -> Seq<char> {
    format_minecraft(v.minecraft) + build_suffix(v.patch)
}


// ---------------------------------------------------------------------------
// Lemmas on decimal numbers and pieces
// ---------------------------------------------------------------------------

/// The value of a prefix of a digit sequence is at most the value of the whole.
pub proof fn lemma_prefix_value(s: Seq<char>, j: int)
    requires
        0 <= j <= s.len(),
    ensures
        decimal_value(s.take(j)) <= decimal_value(s),
    decreases s.len(),
{
    if j == s.len() {
        assert(s.take(j) =~= s);
    } else {
        lemma_prefix_value(s.drop_last(), j);
        assert(s.drop_last().take(j) =~= s.take(j));
    }
}

/// The shortest notation of a number is a non-empty digit sequence with that value.
pub proof fn lemma_decimal(n: nat)
    ensures
        decimal(n).len() > 0,
        all_digits(decimal(n)),
        no_separator(decimal(n)),
        decimal_value(decimal(n)) == n,
        unsigned_part(decimal(n)) == decimal(n),
    decreases n,
{
    let d = decimal(n);
    if n < 10 {
        assert(d =~= seq![digit_char(n)]);
        assert(d.drop_last() =~= Seq::<char>::empty());
        assert(decimal_value(d.drop_last()) == 0);
        assert(d.last() == digit_char(n));
    } else {
        lemma_decimal(n / 10);
        let front = decimal(n / 10);
        assert(d.drop_last() =~= front);
        assert(d.last() == digit_char(n % 10));
        assert(d[0] == front[0]);
        assert forall|i: int| 0 <= i < d.len() implies is_digit(#[trigger] d[i]) by {
            if i < front.len() {
                assert(d[i] == front[i]);
            }
        }
    }
    assert forall|i: int| 0 <= i < d.len() implies !is_separator(#[trigger] d[i]) by {
        assert(is_digit(d[i]));
    }
}

/// A number below 2^32 is read back from its shortest notation.
pub proof fn lemma_parse_decimal(n: u32)
    ensures
        parse_number(decimal(n as nat)) == Some(n),
{
    lemma_decimal(n as nat);
}

proof fn lemma_head_len_step(s: Seq<char>, i: int)
    requires
        0 <= i < s.len(),
        !is_separator(s[i]),
    ensures
        head_len(s.skip(i)) == 1 + head_len(s.skip(i + 1)),
{
    assert(s.skip(i).skip(1) =~= s.skip(i + 1));
}

/// A text without separator is one piece.
pub proof fn lemma_single_piece(a: Seq<char>)
    requires
        no_separator(a),
    ensures
        head_len(a) == a.len(),
        head(a) == a,
        tail(a) is None,
    decreases a.len(),
{
    if a.len() > 0 {
        lemma_single_piece(a.skip(1));
    }
    assert(a.take(a.len() as int) =~= a);
}

/// In front of a separator, a text without separator is the first piece, and
/// what follows the separator is the rest.
pub proof fn lemma_first_piece(a: Seq<char>, c: char, rest: Seq<char>)
    requires
        no_separator(a),
        is_separator(c),
    ensures
        head_len(a + seq![c] + rest) == a.len(),
        head(a + seq![c] + rest) == a,
        tail(a + seq![c] + rest) == Some(rest),
    decreases a.len(),
{
    let whole = a + seq![c] + rest;
    if a.len() > 0 {
        lemma_first_piece(a.skip(1), c, rest);
        assert(whole.skip(1) =~= a.skip(1) + seq![c] + rest);
        assert(whole[0] == a[0]);
    } else {
        assert(whole[0] == c);
    }
    assert(whole.take(a.len() as int) =~= a);
    assert(whole.skip(a.len() as int + 1) =~= rest);
}

// ---------------------------------------------------------------------------
// Reading
// ---------------------------------------------------------------------------

/// The characters of a text, one by one.
pub fn chars_of(text: &str) -> (chars: Vec<char>)
    ensures
        chars@ == text@,
{
    let mut chars: Vec<char> = Vec::new();
    for c in iter: text.chars()
        invariant
            iter.seq() == text@,
            chars@ == text@.take(iter.index() as int),
    {
        chars.push(c);
        assert(chars@ =~= text@.take(iter.index() + 1));
    }
    assert(text@.take(text@.len() as int) =~= text@);
    chars
}

/// The value of the decimal digit `c`, if it is one.
fn digit_of(c: char) -> (r: Option<u32>)
    ensures
        r is Some <==> is_digit(c),
        r is Some ==> r->0 == digit_value(c),
{
    if '0' <= c && c <= '9' {
        Some(c as u32 - '0' as u32)
    } else {
        None
    }
}

/// Where the piece that starts at `start` ends, and where the next one
/// starts, if there is a next one.
fn take_piece(chars: &Vec<char>, start: usize) -> (r: (usize, Option<usize>))
    requires
        start <= chars.len(),
    ensures
        start <= r.0 <= chars.len(),
        chars@.subrange(start as int, r.0 as int) == head(chars@.skip(start as int)),
        match r.1 {
            Some(next) => next <= chars.len() && tail(chars@.skip(start as int)) == Some(
                chars@.skip(next as int),
            ),
            None => tail(chars@.skip(start as int)) is None,
        },
{
    let ghost s = chars@;
    let mut end: usize = start;
    while end < chars.len() && !(chars[end] == '.' || chars[end] == '-')
        invariant
            s == chars@,
            start <= end <= chars.len(),
            head_len(s.skip(start as int)) == (end - start) + head_len(s.skip(end as int)),
        decreases chars.len() - end,
    {
        proof {
            lemma_head_len_step(s, end as int);
        }
        end += 1;
    }
    proof {
        if end < chars.len() {
            assert(s.skip(end as int)[0] == s[end as int]);
        }
        assert(head_len(s.skip(end as int)) == 0);
        assert(s.skip(start as int).take(end - start) =~= s.subrange(start as int, end as int));
        if end < chars.len() {
            assert(s.skip(start as int).skip(end - start + 1) =~= s.skip(end as int + 1));
        }
    }
    if end < chars.len() {
        (end, Some(end + 1))
    } else {
        (end, None)
    }
}

/// The number that the characters from `from` up to `to` denote.
fn number_in(chars: &Vec<char>, from: usize, to: usize) -> (r: Option<u32>)
    requires
        from <= to <= chars.len(),
    ensures
        r == parse_number(chars@.subrange(from as int, to as int)),
{
    let ghost piece = chars@.subrange(from as int, to as int);
    if from == to {
        return None;
    }
    let first: usize = if chars[from] == '+' {
        from + 1
    } else {
        from
    };
    let ghost digits = chars@.subrange(first as int, to as int);
    assert(piece[0] == chars@[from as int]);
    assert(digits =~= unsigned_part(piece));
    if first == to {
        return None;
    }
    let mut value: u64 = 0;
    let mut k: usize = first;
    while k < to
        invariant
            first <= k <= to <= chars.len(),
            piece == chars@.subrange(from as int, to as int),
            digits == chars@.subrange(first as int, to as int),
            digits == unsigned_part(piece),
            all_digits(digits.take(k - first)),
            value == decimal_value(digits.take(k - first)),
            value <= u32::MAX,
        decreases to - k,
    {
        let ghost seen = digits.take(k - first + 1);
        assert(seen.drop_last() =~= digits.take(k - first));
        assert(seen.last() == digits[k - first]);
        assert(digits[k - first] == chars@[k as int]);
        match digit_of(chars[k]) {
            None => {
                return None;
            },
            Some(d) => {
                let next: u64 = value * 10 + d as u64;
                if next > 0xffff_ffff {
                    proof {
                        lemma_prefix_value(digits, k - first + 1);
                    }
                    return None;
                }
                value = next;
                k += 1;
            },
        }
    }
    assert(digits.take(to - first) =~= digits);
    Some(value as u32)
}

/// Where the release part of a version text ends: at the first `-`, or at
/// the end of the text.
fn release_end(chars: &Vec<char>) -> (end: usize)
    ensures
        end == release_len(chars@),
        end <= chars.len(),
{
    let ghost s = chars@;
    let mut end: usize = 0;
    proof {
        assert(s.skip(0) =~= s);
    }
    while end < chars.len() && chars[end] != '-'
        invariant
            s == chars@,
            end <= chars.len(),
            release_len(s) == end + release_len(s.skip(end as int)),
        decreases chars.len() - end,
    {
        proof {
            assert(s.skip(end as int)[0] == s[end as int]);
            assert(s.skip(end as int).skip(1) =~= s.skip(end + 1));
        }
        end += 1;
    }
    proof {
        if end < chars.len() {
            assert(s.skip(end as int)[0] == s[end as int]);
        }
    }
    end
}

/// The first `end` characters of a text.
fn first_chars(chars: &Vec<char>, end: usize) -> (r: Vec<char>)
    requires
        end <= chars.len(),
    ensures
        r@ == chars@.take(end as int),
{
    let mut r: Vec<char> = Vec::new();
    let mut i: usize = 0;
    while i < end
        invariant
            i <= end <= chars.len(),
            r@ == chars@.take(i as int),
        decreases end - i,
    {
        r.push(chars[i]);
        i += 1;
        assert(r@ =~= chars@.take(i as int));
    }
    r
}

impl MinecraftVersion {
    /// Reads a release from its pieces: major, minor and, where there is a
    /// third piece, patch. Beside the release it says where the fourth
    /// piece starts, if there is one.
    fn from_splitted(chars: &Vec<char>) -> (r: Result<(MinecraftVersion, Option<usize>), ErrorKind>)
        ensures
            match r {
                Ok((v, fourth)) => parse_release(chars@) == Ok::<MinecraftVersion, ErrorKind>(v)
                    && match fourth {
                    Some(at) => at <= chars.len() && piece(chars@, 3) == Some(
                        head(chars@.skip(at as int)),
                    ),
                    None => piece(chars@, 3) is None,
                },
                Err(e) => parse_release(chars@) == Err::<MinecraftVersion, ErrorKind>(e),
            },
    {
        proof {
            reveal_with_fuel(piece, 5);
            assert(chars@.skip(0) =~= chars@);
        }
        let (end0, next0) = take_piece(chars, 0);
        let major = match number_in(chars, 0, end0) {
            Some(n) => n,
            None => {
                return Err(ErrorKind::Parse(VersionPart::Major));
            },
        };
        let start1 = match next0 {
            Some(at) => at,
            None => {
                return Err(ErrorKind::Parse(VersionPart::Minor));
            },
        };
        let (end1, next1) = take_piece(chars, start1);
        let minor = match number_in(chars, start1, end1) {
            Some(n) => n,
            None => {
                return Err(ErrorKind::Parse(VersionPart::Minor));
            },
        };
        let start2 = match next1 {
            Some(at) => at,
            None => {
                return Ok((MinecraftVersion(major, minor, None), None));
            },
        };
        let (end2, next2) = take_piece(chars, start2);
        let patch = match number_in(chars, start2, end2) {
            Some(n) => n,
            None => {
                return Err(ErrorKind::Parse(VersionPart::Patch));
            },
        };
        Ok((MinecraftVersion(major, minor, Some(patch)), next2))
    }

    /// Reads `MAJOR.MINOR[.PATCH]`. A piece behind the third, and what
    /// follows a `-`, belongs to the build and is not looked at.
    pub fn parse(text: &str) -> (r: Result<MinecraftVersion, ErrorKind>)
        ensures
            r == parse_minecraft(text@),
    {
        let chars = chars_of(text);
        let end = release_end(&chars);
        let release = first_chars(&chars, end);
        match MinecraftVersion::from_splitted(&release) {
            Ok((v, _)) => Ok(v),
            Err(e) => Err(e),
        }
    }
}

impl ServerVersion {
    /// Reads `MAJOR.MINOR[.PATCH][-BUILD]`. A fourth piece in front of the
    /// `-` is the build as well: `1.12.2.4` is read as `1.12.2-4`.
    pub fn new(data: &str) -> (r: Result<ServerVersion, ErrorKind>)
        ensures
            r == parse_server(data@),
    {
        let chars = chars_of(data);
        let end = release_end(&chars);
        let release = first_chars(&chars, end);
        let (minecraft, fourth) = match MinecraftVersion::from_splitted(&release) {
            Ok(found) => found,
            Err(e) => {
                return Err(e);
            },
        };
        let build = match fourth {
            Some(at) => {
                let (build_end, _) = take_piece(&release, at);
                number_in(&release, at, build_end)
            },
            None => {
                if end < chars.len() {
                    let (build_end, _) = take_piece(&chars, end + 1);
                    number_in(&chars, end + 1, build_end)
                } else {
                    return Ok(ServerVersion { minecraft, patch: None });
                }
            },
        };
        match build {
            Some(number) => Ok(ServerVersion { minecraft, patch: Some(number) }),
            None => Err(ErrorKind::Parse(VersionPart::Build)),
        }
    }
}

// ---------------------------------------------------------------------------
// Writing
// ---------------------------------------------------------------------------

/// The one-character text of a decimal digit.
fn digit_str(d: u32) -> (r: &'static str)
    requires
        d < 10,
    ensures
        r@ == seq![digit_char(d as nat)],
{
    proof {
        reveal_strlit("0");
        reveal_strlit("1");
        reveal_strlit("2");
        reveal_strlit("3");
        reveal_strlit("4");
        reveal_strlit("5");
        reveal_strlit("6");
        reveal_strlit("7");
        reveal_strlit("8");
        reveal_strlit("9");
    }
    let r = if d == 0 {
        "0"
    } else if d == 1 {
        "1"
    } else if d == 2 {
        "2"
    } else if d == 3 {
        "3"
    } else if d == 4 {
        "4"
    } else if d == 5 {
        "5"
    } else if d == 6 {
        "6"
    } else if d == 7 {
        "7"
    } else if d == 8 {
        "8"
    } else {
        "9"
    };
    assert(r@ =~= seq![digit_char(d as nat)]);
    r
}

/// The shortest decimal notation of `n`.
pub fn decimal_string(n: u32) -> (r: String)
    ensures
        r@ == decimal(n as nat),
    decreases n,
{
    if n < 10 {
        String::from_str(digit_str(n))
    } else {
        let mut r = decimal_string(n / 10);
        r.append(digit_str(n % 10));
        assert(r@ =~= decimal(n as nat));
        r
    }
}

/// Appends a separator and a number to `text`, where there is a number.
fn append_suffix(text: &mut String, separator: &str, number: Option<u32>)
    ensures
        final(text)@ == old(text)@ + match number {
            Some(n) => separator@ + decimal(n as nat),
            None => Seq::empty(),
        },
{
    match number {
        Some(n) => {
            text.append(separator);
            let digits = decimal_string(n);
            text.append(digits.as_str());
            assert(text@ =~= old(text)@ + (separator@ + decimal(n as nat)));
        },
        None => {
            assert(text@ =~= old(text)@ + Seq::<char>::empty());
        },
    }
}

impl MinecraftVersion {
    /// `MAJOR.MINOR[.PATCH]`.
    pub fn to_string(&self) -> (r: String)
        ensures
            r@ == format_minecraft(*self),
    {
        proof {
            reveal_strlit(".");
            assert("."@ =~= seq!['.']);
        }
        let mut r = decimal_string(self.0);
        append_suffix(&mut r, ".", Some(self.1));
        append_suffix(&mut r, ".", self.2);
        assert(r@ =~= format_minecraft(*self));
        r
    }
}

impl ServerVersion {
    /// `MAJOR.MINOR[.PATCH][-BUILD]`.
    pub fn to_string(&self) -> (r: String)
        ensures
            r@ == format_server(*self),
    {
        proof {
            reveal_strlit("-");
            assert("-"@ =~= seq!['-']);
        }
        let mut r = self.minecraft.to_string();
        append_suffix(&mut r, "-", self.patch);
        r
    }
}

// ---------------------------------------------------------------------------
// Reading back what was written
// ---------------------------------------------------------------------------

/// A text without `-` is all release and pins no build.
pub proof fn lemma_release_whole(a: Seq<char>)
    requires
        no_dash(a),
    ensures
        release_text(a) == a,
        build_text(a) is None,
    decreases a.len(),
{
    lemma_release_len(a, Seq::empty());
    assert(a + Seq::<char>::empty() =~= a);
    assert(a.take(a.len() as int) =~= a);
}

/// In front of a `-`, a text without `-` is the release, and what follows
/// the `-` names the build.
pub proof fn lemma_release_first(a: Seq<char>, rest: Seq<char>)
    requires
        no_dash(a),
    ensures
        release_text(a + seq!['-'] + rest) == a,
        build_text(a + seq!['-'] + rest) == Some(rest),
{
    let whole = a + seq!['-'] + rest;
    lemma_release_len(a, seq!['-'] + rest);
    assert(a + (seq!['-'] + rest) =~= whole);
    assert(whole.take(a.len() as int) =~= a);
    assert(whole.skip(a.len() as int + 1) =~= rest);
}

/// The release part of a text ends where its first `-` stands.
proof fn lemma_release_len(a: Seq<char>, rest: Seq<char>)
    requires
        no_dash(a),
        rest.len() == 0 || rest[0] == '-',
    ensures
        release_len(a + rest) == a.len(),
    decreases a.len(),
{
    let whole = a + rest;
    if a.len() > 0 {
        assert(whole[0] == a[0]);
        assert(no_dash(a.skip(1))) by {
            assert forall|i: int| 0 <= i < a.skip(1).len() implies #[trigger] a.skip(1)[i] != '-' by {
                assert(a.skip(1)[i] == a[i + 1]);
            }
        }
        lemma_release_len(a.skip(1), rest);
        assert(whole.skip(1) =~= a.skip(1) + rest);
    } else {
        assert(whole =~= rest);
    }
}

/// Two texts without `-`, one behind the other, hold no `-`.
proof fn lemma_no_dash_join(a: Seq<char>, b: Seq<char>)
    requires
        no_dash(a),
        no_dash(b),
    ensures
        no_dash(a + b),
{
    assert forall|i: int| 0 <= i < (a + b).len() implies #[trigger] (a + b)[i] != '-' by {
        if i < a.len() {
            assert((a + b)[i] == a[i]);
        } else {
            assert((a + b)[i] == b[i - a.len()]);
        }
    }
}

/// The decimal notation of a number holds no `-`.
proof fn lemma_decimal_has_no_dash(n: nat)
    ensures
        no_dash(decimal(n)),
{
    lemma_decimal(n);
    assert forall|i: int| 0 <= i < decimal(n).len() implies #[trigger] decimal(n)[i] != '-' by {
        assert(is_digit(decimal(n)[i]));
    }
}

/// The text of a release holds no `-`.
pub proof fn lemma_release_has_no_dash(v: MinecraftVersion)
    ensures
        no_dash(format_minecraft(v)),
{
    lemma_decimal_has_no_dash(v.0 as nat);
    lemma_decimal_has_no_dash(v.1 as nat);
    lemma_no_dash_join(decimal(v.0 as nat), seq!['.']);
    lemma_no_dash_join(decimal(v.0 as nat) + seq!['.'], decimal(v.1 as nat));
    match v.2 {
        Some(p) => {
            lemma_decimal_has_no_dash(p as nat);
            lemma_no_dash_join(seq!['.'], decimal(p as nat));
        },
        None => {},
    }
    lemma_no_dash_join(decimal(v.0 as nat) + seq!['.'] + decimal(v.1 as nat), patch_suffix(v.2));
}

/// Every release is read back from the pieces of its text, which has no
/// fourth piece.
proof fn lemma_release_round_trip(v: MinecraftVersion)
    ensures
        parse_release(format_minecraft(v)) == Ok::<MinecraftVersion, ErrorKind>(v),
        piece(format_minecraft(v), 3) is None,
{
    reveal_with_fuel(piece, 5);
    let text = format_minecraft(v);
    let major = decimal(v.0 as nat);
    let minor = decimal(v.1 as nat);
    lemma_decimal(v.0 as nat);
    lemma_decimal(v.1 as nat);
    let after_major = minor + patch_suffix(v.2);
    assert(text =~= major + seq!['.'] + after_major);
    lemma_first_piece(major, '.', after_major);
    match v.2 {
        None => {
            assert(after_major =~= minor);
            lemma_single_piece(minor);
        },
        Some(p) => {
            let patch = decimal(p as nat);
            lemma_decimal(p as nat);
            assert(after_major =~= minor + seq!['.'] + patch);
            lemma_first_piece(minor, '.', patch);
            lemma_single_piece(patch);
        },
    }
}

/// Every Minecraft version is read back from its text.
pub proof fn lemma_minecraft_round_trip(v: MinecraftVersion)
    ensures
        parse_minecraft(format_minecraft(v)) == Ok::<MinecraftVersion, ErrorKind>(v),
{
    lemma_release_has_no_dash(v);
    lemma_release_whole(format_minecraft(v));
    lemma_release_round_trip(v);
}

/// Every server version is read back from its text, with or without patch
/// number and with or without build.
pub proof fn lemma_server_round_trip(v: ServerVersion)
    ensures
        parse_server(format_server(v)) == Ok::<ServerVersion, ErrorKind>(v),
{
    let release = format_minecraft(v.minecraft);
    lemma_release_has_no_dash(v.minecraft);
    lemma_release_round_trip(v.minecraft);
    match v.patch {
        Some(b) => {
            let digits = decimal(b as nat);
            lemma_decimal(b as nat);
            assert(format_server(v) =~= release + seq!['-'] + digits);
            lemma_release_first(release, digits);
            lemma_single_piece(digits);
        },
        None => {
            assert(format_server(v) =~= release);
            lemma_release_whole(release);
        },
    }
}

/// Writing a version that was read from a text, and reading the result
/// again, gives the same version.
pub proof fn lemma_parse_format_parse(text: Seq<char>)
    requires
        parse_server(text) is Ok,
    ensures
        parse_server(format_server(parse_server(text)->Ok_0)) == parse_server(text),
{
    lemma_server_round_trip(parse_server(text)->Ok_0);
}

// ---------------------------------------------------------------------------
// The configuration document
// ---------------------------------------------------------------------------

/// The text under `key`, where the document has a string there.
pub open spec fn text_field(document: Node, key: Seq<char>) -> Option<Seq<char>> {
    match field(document, key) {
        Some(Node::Text(text)) => Some(text),
        _ => None,
    }
}

/// The kind that a document names: the text under `kind`, and `paper` where
/// the document has no such field. Nothing where the field is no string.
pub open spec fn kind_field(document: Node) -> Option<Seq<char>> {
    match field(document, "kind"@) {
        None => Some("paper"@),
        Some(Node::Text(text)) => Some(text),
        Some(_) => None,
    }
}

/// Every item of a list is a string.
pub open spec fn all_text(items: Seq<Node>) -> bool {
    forall|i: int| 0 <= i < items.len() ==> #[trigger] items[i] is Text
}

/// The texts of a list of strings.
pub open spec fn item_texts(items: Seq<Node>) -> Seq<Seq<char>> {
    Seq::new(items.len(), |i: int| items[i]->Text_0)
}

/// The list of strings under `key`; the empty list where the document has
/// no such field. Nothing where the field is no list of strings.
pub open spec fn list_field(document: Node, key: Seq<char>) -> Option<Seq<Seq<char>>> {
    match field(document, key) {
        None => Some(Seq::empty()),
        Some(Node::List(items)) => if all_text(items) {
            Some(item_texts(items))
        } else {
            None
        },
        Some(_) => None,
    }
}

/// The configuration that a document describes, or the first thing that is
/// wrong with it: fields are looked at in the order name, version, kind,
/// extra Java arguments, extra server arguments.
pub open spec fn config_of(document: Node) -> Result<ServerConfigView, ErrorKind> {
    match text_field(document, "name"@) {
        None => Err(ErrorKind::Field(Field::Name)),
        Some(name) => match text_field(document, "version"@) {
            None => Err(ErrorKind::Field(Field::Version)),
            Some(version_text) => match parse_server(version_text) {
                Err(e) => Err(e),
                Ok(version) => match kind_field(document) {
                    None => Err(ErrorKind::Field(Field::Kind)),
                    Some(kind) => match list_field(document, "extra_java_args"@) {
                        None => Err(ErrorKind::Field(Field::ExtraJavaArgs)),
                        Some(extra_java_args) => match list_field(document, "extra_server_args"@) {
                            None => Err(ErrorKind::Field(Field::ExtraServerArgs)),
                            Some(extra_server_args) => Ok(
                                ServerConfigView {
                                    version,
                                    name,
                                    kind,
                                    extra_java_args,
                                    extra_server_args,
                                },
                            ),
                        },
                    },
                },
            },
        },
    }
}

/// What `ServerConfig::new` makes of a text.
pub open spec fn config_of_text(text: Seq<char>) -> Result<ServerConfigView, ErrorKind> {
    match document_of(text) {
        None => Err(ErrorKind::Syntax),
        Some(document) => config_of(document),
    }
}

/// A list of texts as a list of strings of a document.
pub open spec fn text_nodes(list: Seq<Seq<char>>) -> Seq<Node> {
    Seq::new(list.len(), |i: int| Node::Text(list[i]))
}

/// The document that describes a configuration.
pub open spec fn config_document(config: ServerConfigView) -> Node {
    Node::Table(
        no_entries().insert("name"@, Node::Text(config.name)).insert(
            "version"@,
            Node::Text(format_server(config.version)),
        ).insert("kind"@, Node::Text(config.kind)).insert(
            "extra_java_args"@,
            Node::List(text_nodes(config.extra_java_args)),
        ).insert("extra_server_args"@, Node::List(text_nodes(config.extra_server_args))),
    )
}

/// The text under `key`.
fn text_of(document: &toml::Value, key: &str) -> (r: Option<String>)
    ensures
        match r {
            Some(text) => text_field(node(*document), key@) == Some(text@),
            None => text_field(node(*document), key@) is None,
        },
{
    match get_field(document, key) {
        Some(value) => match as_text(value) {
            Some(text) => Some(String::from_str(text)),
            None => None,
        },
        None => None,
    }
}

/// The list of strings under `key`.
fn list_of(document: &toml::Value, key: &str) -> (r: Option<Vec<String>>)
    ensures
        match r {
            Some(list) => list_field(node(*document), key@) == Some(texts_of(list@)),
            None => list_field(node(*document), key@) is None,
        },
{
    let value = match get_field(document, key) {
        Some(value) => value,
        None => {
            let list: Vec<String> = Vec::new();
            assert(texts_of(list@) =~= Seq::<Seq<char>>::empty());
            return Some(list);
        },
    };
    let items = match as_list(value) {
        Some(items) => items,
        None => {
            return None;
        },
    };
    let ghost all = nodes(items@);
    let mut list: Vec<String> = Vec::new();
    let mut i: usize = 0;
    while i < items.len()
        invariant
            i <= items@.len(),
            all == nodes(items@),
            field(node(*document), key@) == Some(Node::List(all)),
            list@.len() == i,
            forall|j: int| 0 <= j < i ==> #[trigger] all[j] == Node::Text(list@[j]@),
        decreases items@.len() - i,
    {
        match as_text(&items[i]) {
            Some(text) => {
                list.push(String::from_str(text));
            },
            None => {
                assert(!(all[i as int] is Text));
                return None;
            },
        }
        i += 1;
    }
    assert(all_text(all));
    assert(item_texts(all) =~= texts_of(list@));
    Some(list)
}

/// The strings of a list as values of a document.
fn text_values(list: &Vec<String>) -> (r: toml::Value)
    ensures
        node(r) == Node::List(text_nodes(texts_of(list@))),
{
    let mut items: Vec<toml::Value> = Vec::new();
    let mut i: usize = 0;
    while i < list.len()
        invariant
            i <= list@.len(),
            items@.len() == i,
            forall|j: int| 0 <= j < i ==> node(#[trigger] items@[j]) == Node::Text(list@[j]@),
        decreases list@.len() - i,
    {
        items.push(text_value(list[i].clone()));
        i += 1;
    }
    assert(nodes(items@) =~= text_nodes(texts_of(list@)));
    list_value(items)
}

impl ServerConfig {
    /// Reads a configuration from a document that was parsed already.
    pub fn from_document(document: &toml::Value) -> (r: Result<ServerConfig, ErrorKind>)
        ensures
            match r {
                Ok(config) => config_of(node(*document)) == Ok::<ServerConfigView, ErrorKind>(config@),
                Err(e) => config_of(node(*document)) == Err::<ServerConfigView, ErrorKind>(e),
            },
    {
        let name = match text_of(document, "name") {
            Some(name) => name,
            None => {
                return Err(ErrorKind::Field(Field::Name));
            },
        };
        let version_text = match text_of(document, "version") {
            Some(text) => text,
            None => {
                return Err(ErrorKind::Field(Field::Version));
            },
        };
        let version = match ServerVersion::new(version_text.as_str()) {
            Ok(version) => version,
            Err(e) => {
                return Err(e);
            },
        };
        let kind = match get_field(document, "kind") {
            None => String::from_str("paper"),
            Some(value) => match as_text(value) {
                Some(text) => String::from_str(text),
                None => {
                    return Err(ErrorKind::Field(Field::Kind));
                },
            },
        };
        let extra_java_args = match list_of(document, "extra_java_args") {
            Some(list) => list,
            None => {
                return Err(ErrorKind::Field(Field::ExtraJavaArgs));
            },
        };
        let extra_server_args = match list_of(document, "extra_server_args") {
            Some(list) => list,
            None => {
                return Err(ErrorKind::Field(Field::ExtraServerArgs));
            },
        };
        Ok(ServerConfig { version, name, kind, extra_java_args, extra_server_args })
    }

    /// Reads a configuration from the text of its document.
    pub fn new(str_config: &str) -> (r: Result<ServerConfig, ErrorKind>)
        ensures
            match r {
                Ok(config) => config_of_text(str_config@) == Ok::<ServerConfigView, ErrorKind>(
                    config@,
                ),
                Err(e) => config_of_text(str_config@) == Err::<ServerConfigView, ErrorKind>(e),
            },
    {
        match read_document(str_config) {
            Ok(document) => ServerConfig::from_document(&document),
            Err(e) => Err(e),
        }
    }

    /// The document that describes this configuration.
    pub fn to_document(&self) -> (r: toml::Value)
        ensures
            node(r) == config_document(self@),
    {
        let mut table = new_table();
        table_insert(&mut table, String::from_str("name"), text_value(self.name.clone()));
        table_insert(&mut table, String::from_str("version"), text_value(self.version.to_string()));
        table_insert(&mut table, String::from_str("kind"), text_value(self.kind.clone()));
        table_insert(
            &mut table,
            String::from_str("extra_java_args"),
            text_values(&self.extra_java_args),
        );
        table_insert(
            &mut table,
            String::from_str("extra_server_args"),
            text_values(&self.extra_server_args),
        );
        table_value(table)
    }

    /// The text of the document that describes this configuration.
    pub fn to_toml(&self) -> (r: Result<String, ErrorKind>)
        ensures
            match r {
                Ok(text) => written_pretty(config_document(self@)) == Some(text@),
                Err(e) => e == ErrorKind::Encode && written_pretty(config_document(self@)) is None,
            },
    {
        let document = self.to_document();
        match write_document_pretty(&document) {
            Ok(text) => Ok(text),
            Err(_) => Err(ErrorKind::Encode),
        }
    }
}

// ---------------------------------------------------------------------------
// The order of releases
// ---------------------------------------------------------------------------

/// A missing patch number comes before every patch number.
pub open spec fn patch_before(a: Option<u32>, b: Option<u32>) -> bool {
    match (a, b) {
        (None, Some(_)) => true,
        (Some(x), Some(y)) => x < y,
        _ => false,
    }
}

/// The release `a` is older than `b`: by major number, then minor, then patch.
pub open spec fn version_before(a: MinecraftVersion, b: MinecraftVersion) -> bool {
    a.0 < b.0 || (a.0 == b.0 && (a.1 < b.1 || (a.1 == b.1 && patch_before(a.2, b.2))))
}

impl MinecraftVersion {
    /// Whether this release is older than `other`.
    pub fn is_before(&self, other: &MinecraftVersion) -> (r: bool)
        ensures
            r == version_before(*self, *other),
    {
        if self.0 != other.0 {
            self.0 < other.0
        } else if self.1 != other.1 {
            self.1 < other.1
        } else {
            match (self.2, other.2) {
                (None, Some(_)) => true,
                (Some(x), Some(y)) => x < y,
                _ => false,
            }
        }
    }
}

/// The order of releases is total: of two different releases exactly one is
/// older than the other, and no release is older than itself.
pub proof fn lemma_version_order(a: MinecraftVersion, b: MinecraftVersion, c: MinecraftVersion)
    ensures
        !version_before(a, a),
        a != b ==> (version_before(a, b) <==> !version_before(b, a)),
        version_before(a, b) && version_before(b, c) ==> version_before(a, c),
{
}

/// Every configuration is read back from the document that describes it.
pub proof fn lemma_config_round_trip(config: ServerConfigView)
    ensures
        config_of(config_document(config)) == Ok::<ServerConfigView, ErrorKind>(config),
{
    reveal_strlit("name");
    reveal_strlit("version");
    reveal_strlit("kind");
    reveal_strlit("extra_java_args");
    reveal_strlit("extra_server_args");
    assert("name"@[0] != "kind"@[0]);
    assert("extra_java_args"@.len() != "extra_server_args"@.len());
    lemma_server_round_trip(config.version);
    let document = config_document(config);
    let java = text_nodes(config.extra_java_args);
    let server = text_nodes(config.extra_server_args);
    assert(field(document, "name"@) == Some(Node::Text(config.name)));
    assert(field(document, "version"@) == Some(Node::Text(format_server(config.version))));
    assert(field(document, "kind"@) == Some(Node::Text(config.kind)));
    assert(field(document, "extra_java_args"@) == Some(Node::List(java)));
    assert(field(document, "extra_server_args"@) == Some(Node::List(server)));
    assert(all_text(java));
    assert(all_text(server));
    assert(item_texts(java) =~= config.extra_java_args);
    assert(item_texts(server) =~= config.extra_server_args);
}

impl std::str::FromStr for MinecraftVersion {
    type Err = ErrorKind;

    /// Reads `MAJOR.MINOR[.PATCH]`. A piece behind the third, and what
    /// follows a `-`, is ignored.
    fn from_str(s: &str) -> (r: Result<MinecraftVersion, ErrorKind>)
        ensures
            r == parse_minecraft(s@),
    {
        MinecraftVersion::parse(s)
    }
}

} // verus!

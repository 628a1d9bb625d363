//! Reading the build orchestrator's error output: the line worth showing,
//! and the span of the first error marker.
use vstd::prelude::*;
use vstd::string::StringSliceAdditionalSpecFns;
use crate::text::{chars_of, string_of};
use vstd::utf8::encode_utf8;

verus! {

/// The characters `char::is_whitespace` accepts: Unicode's White_Space.
pub open spec fn is_space(c: char) -> bool {
    ('\u{9}' <= c && c <= '\u{d}') || c == ' ' || c == '\u{85}' || c == '\u{a0}' || c == '\u{1680}'
        || ('\u{2000}' <= c && c <= '\u{200a}') || c == '\u{2028}' || c == '\u{2029}' || c
        == '\u{202f}' || c == '\u{205f}' || c == '\u{3000}'
}

fn space(c: char) -> (r: bool)
    ensures
        r == is_space(c),
{
    ('\u{9}' <= c && c <= '\u{d}') || c == ' ' || c == '\u{85}' || c == '\u{a0}' || c == '\u{1680}'
        || ('\u{2000}' <= c && c <= '\u{200a}') || c == '\u{2028}' || c == '\u{2029}' || c
        == '\u{202f}' || c == '\u{205f}' || c == '\u{3000}'
}

pub open spec fn trim_start(s: Seq<char>) -> Seq<char>
    decreases s.len(),
{
    if s.len() > 0 && is_space(s[0]) {
        trim_start(s.skip(1))
    } else {
        s
    }
}

pub open spec fn trim_end(s: Seq<char>) -> Seq<char>
    decreases s.len(),
{
    if s.len() > 0 && is_space(s.last()) {
        trim_end(s.drop_last())
    } else {
        s
    }
}

/// The text without white space at either end, as `str::trim` leaves it.
pub open spec fn trim(s: Seq<char>) -> Seq<char> {
    trim_end(trim_start(s))
}

/// The text cut at each line feed. Carriage returns stay with their line,
/// where trimming removes them.
pub open spec fn split_lines(s: Seq<char>) -> Seq<Seq<char>>
    decreases s.len(),
{
    if s.len() == 0 {
        seq![Seq::empty()]
    } else {
        let p = split_lines(s.drop_last());
        if s.last() == '\n' {
            p.push(Seq::empty())
        } else {
            p.update(p.len() - 1, p.last().push(s.last()))
        }
    }
}

pub open spec fn starts_with(s: Seq<char>, p: Seq<char>) -> bool {
    p.len() <= s.len() && s.take(p.len() as int) == p
}

pub open spec fn contains_text(s: Seq<char>, p: Seq<char>) -> bool {
    exists|i: int| 0 <= i && i + p.len() <= s.len() && #[trigger] s.subrange(i, i + p.len()) == p
}

/// A line of box drawing that frames the output.
pub open spec fn is_frame(t: Seq<char>) -> bool {
    t.len() > 0 && (t[0] == '\u{2502}' || t[0] == '\u{250c}' || t[0] == '\u{2514}')
}

/// The message of an `error:` line, with the marker and surrounding space
/// removed.
pub open spec fn error_marker_message(t: Seq<char>) -> Option<Seq<char>> {
    if starts_with(t, "error:"@) || starts_with(t, "Error:"@) || starts_with(t, "ERROR:"@) {
        let m = trim(t.skip(6));
        if m.len() > 0 {
            Some(m)
        } else {
            None
        }
    } else {
        None
    }
}

/// What a trimmed line says, where it reports an error.
pub open spec fn line_message(t: Seq<char>) -> Option<Seq<char>> {
    if t.len() == 0 || is_frame(t) {
        None
    } else if error_marker_message(t) is Some {
        error_marker_message(t)
    } else if starts_with(t, "Failed to"@) || starts_with(t, "failed to"@) {
        Some(t)
    } else if contains_text(t, "task"@) && (contains_text(t, "failed"@) || contains_text(t, "error"@)) {
        Some(t)
    } else if contains_text(t, "Invalid"@) || contains_text(t, "invalid"@) {
        Some(t)
    } else {
        None
    }
}

/// The first line, trimmed, that reports an error.
pub open spec fn first_message(ls: Seq<Seq<char>>) -> Option<Seq<char>>
    decreases ls.len(),
{
    if ls.len() == 0 {
        None
    } else if line_message(trim(ls[0])) is Some {
        line_message(trim(ls[0]))
    } else {
        first_message(ls.skip(1))
    }
}

/// A trimmed line with some text that is no box drawing.
pub open spec fn is_plain(t: Seq<char>) -> bool {
    t.len() > 0 && !(t[0] == '\u{2502}' || t[0] == '\u{250c}' || t[0] == '\u{2514}' || t[0]
        == '\u{256d}' || t[0] == '\u{2570}')
}

/// The first line, trimmed, that is plain.
pub open spec fn first_plain(ls: Seq<Seq<char>>) -> Option<Seq<char>>
    decreases ls.len(),
{
    if ls.len() == 0 {
        None
    } else if is_plain(trim(ls[0])) {
        Some(trim(ls[0]))
    } else {
        first_plain(ls.skip(1))
    }
}

/// The most telling line of the orchestrator's error output.
pub open spec fn main_error(output: Seq<char>) -> Seq<char> {
    if trim(output).len() == 0 {
        "See error details above"@
    } else {
        match first_message(split_lines(output)) {
            Some(m) => m,
            None => match first_plain(split_lines(output)) {
                Some(t) => t,
                None => "Command execution failed"@,
            },
        }
    }
}

fn trimmed(s: &Vec<char>, from: usize) -> (r: Vec<char>)
    requires
        from <= s.len(),
    ensures
        r@ == trim(s@.skip(from as int)),
{
    let n = s.len();
    let mut i: usize = from;
    assert(s@.skip(from as int) == s@.subrange(from as int, n as int));
    while i < n && space(s[i])
        invariant
            from <= i <= n,
            n == s@.len(),
            trim_start(s@.skip(from as int)) == trim_start(s@.subrange(i as int, n as int)),
        decreases n - i,
    {
        assert(s@.subrange(i as int, n as int).skip(1) == s@.subrange(i + 1, n as int));
        i = i + 1;
    }
    let ghost t = s@.subrange(i as int, n as int);
    assert(trim_start(s@.skip(from as int)) == t);
    let mut j: usize = n;
    while j > i && space(s[j - 1])
        invariant
            i <= j <= n,
            n == s@.len(),
            trim_end(t) == trim_end(s@.subrange(i as int, j as int)),
            t == s@.subrange(i as int, n as int),
        decreases j,
    {
        assert(s@.subrange(i as int, j as int).drop_last() == s@.subrange(i as int, j - 1));
        j = j - 1;
    }
    let mut out: Vec<char> = Vec::new();
    let mut k: usize = i;
    while k < j
        invariant
            i <= k <= j <= n,
            n == s@.len(),
            out@ == s@.subrange(i as int, k as int),
        decreases j - k,
    {
        out.push(s[k]);
        assert(s@.subrange(i as int, k + 1) == s@.subrange(i as int, k as int).push(s@[k as int]));
        k = k + 1;
    }
    out
}

fn lines_of(s: &Vec<char>) -> (r: Vec<Vec<char>>)
    ensures
        r@.map_values(|l: Vec<char>| l@) == split_lines(s@),
{
    let mut done: Vec<Vec<char>> = Vec::new();
    let mut cur: Vec<char> = Vec::new();
    let mut k: usize = 0;
    assert(s@.subrange(0, 0) == Seq::<char>::empty());
    while k < s.len()
        invariant
            k <= s.len(),
            done@.map_values(|l: Vec<char>| l@).push(cur@) == split_lines(s@.subrange(0, k as int)),
        decreases s.len() - k,
    {
        let ghost pre = s@.subrange(0, k as int);
        assert(s@.subrange(0, k + 1).drop_last() == pre);
        let ghost before = done@.map_values(|l: Vec<char>| l@).push(cur@);
        if s[k] == '\n' {
            let line = cur;
            cur = Vec::new();
            done.push(line);
            assert(done@.map_values(|l: Vec<char>| l@).push(cur@) == before.push(Seq::empty()));
        } else {
            cur.push(s[k]);
            assert(done@.map_values(|l: Vec<char>| l@).push(cur@) == before.update(
                before.len() - 1,
                before.last().push(s@[k as int]),
            ));
        }
        k = k + 1;
    }
    assert(s@.subrange(0, s@.len() as int) == s@);
    done.push(cur);
    done
}

/// Whether `p` stands in `s` at `i`.
fn stands_at(s: &Vec<char>, p: &Vec<char>, i: usize) -> (r: bool)
    requires
        i <= s.len(),
    ensures
        r == (i + p.len() <= s.len() && s@.subrange(i as int, i + p.len()) == p@),
{
    if p.len() > s.len() - i {
        return false;
    }
    let mut k: usize = 0;
    while k < p.len()
        invariant
            k <= p.len(),
            i + p.len() <= s.len(),
            s@.subrange(i as int, i + k) == p@.subrange(0, k as int),
        decreases p.len() - k,
    {
        if s[i + k] != p[k] {
            assert(s@.subrange(i as int, i + p.len())[k as int] != p@[k as int]);
            return false;
        }
        assert(s@.subrange(i as int, i + k + 1) == s@.subrange(i as int, i + k).push(s@[i + k]));
        assert(p@.subrange(0, k + 1) == p@.subrange(0, k as int).push(p@[k as int]));
        k = k + 1;
    }
    assert(p@.subrange(0, p.len() as int) == p@);
    true
}

fn begins(s: &Vec<char>, p: &str) -> (r: bool)
    ensures
        r == starts_with(s@, p@),
{
    let pc = chars_of(p);
    let r = stands_at(s, &pc, 0);
    proof {
        if pc.len() <= s.len() {
            assert(s@.take(pc.len() as int) == s@.subrange(0, pc.len() as int));
        }
    }
    r
}

fn holds(s: &Vec<char>, p: &str) -> (r: bool)
    ensures
        r == contains_text(s@, p@),
{
    let pc = chars_of(p);
    let mut i: usize = 0;
    while i < s.len()
        invariant
            pc@ == p@,
            i <= s.len(),
            forall|j: int|
                0 <= j < i && j + p@.len() <= s@.len() ==> #[trigger] s@.subrange(j, j + p@.len()) != p@,
        decreases s.len() - i,
    {
        if stands_at(s, &pc, i) {
            return true;
        }
        i = i + 1;
    }
    stands_at(s, &pc, i)
}

fn is_frame_line(t: &Vec<char>) -> (r: bool)
    ensures
        r == is_frame(t@),
{
    t.len() > 0 && (t[0] == '\u{2502}' || t[0] == '\u{250c}' || t[0] == '\u{2514}')
}

fn is_plain_line(t: &Vec<char>) -> (r: bool)
    ensures
        r == is_plain(t@),
{
    t.len() > 0 && !(t[0] == '\u{2502}' || t[0] == '\u{250c}' || t[0] == '\u{2514}' || t[0]
        == '\u{256d}' || t[0] == '\u{2570}')
}

fn message_of(t: &Vec<char>) -> (r: Option<Vec<char>>)
    ensures
        match r {
            Some(m) => line_message(t@) == Some(m@),
            None => line_message(t@) is None,
        },
{
    proof {
        reveal_strlit("error:");
        reveal_strlit("Error:");
        reveal_strlit("ERROR:");
    }
    if t.len() == 0 || is_frame_line(t) {
        return None;
    }
    if begins(t, "error:") || begins(t, "Error:") || begins(t, "ERROR:") {
        let m = trimmed(t, 6);
        if m.len() > 0 {
            return Some(m);
        }
    }
    if begins(t, "Failed to") || begins(t, "failed to") {
        return Some(copy_chars(t));
    }
    if holds(t, "task") && (holds(t, "failed") || holds(t, "error")) {
        return Some(copy_chars(t));
    }
    if holds(t, "Invalid") || holds(t, "invalid") {
        return Some(copy_chars(t));
    }
    None
}

fn copy_chars(t: &Vec<char>) -> (r: Vec<char>)
    ensures
        r@ == t@,
{
    let mut out: Vec<char> = Vec::new();
    let mut k: usize = 0;
    while k < t.len()
        invariant
            k <= t.len(),
            out@ == t@.subrange(0, k as int),
        decreases t.len() - k,
    {
        out.push(t[k]);
        assert(t@.subrange(0, k + 1) == t@.subrange(0, k as int).push(t@[k as int]));
        k = k + 1;
    }
    assert(t@.subrange(0, t@.len() as int) == t@);
    out
}

/// The message to show for a failed orchestrator command, from its error
/// output: the first line that reports an error (an `error:` line without
/// its marker, a `Failed to` line, a failed task, an invalid value); else the
/// first line of plain text; else a generic message. Empty output means the
/// orchestrator already showed its error.
pub fn extract_moon_main_error(output: &str) -> (r: String)
    ensures
        r@ == main_error(output@),
{
    let s = chars_of(output);
    let whole = trimmed(&s, 0);
    assert(s@.skip(0) == s@);
    if whole.len() == 0 {
        return String::from_str("See error details above");
    }
    let ls = lines_of(&s);
    let ghost lv = ls@.map_values(|l: Vec<char>| l@);
    let mut k: usize = 0;
    assert(lv.skip(0) == lv);
    while k < ls.len()
        invariant
            k <= ls.len(),
            lv == ls@.map_values(|l: Vec<char>| l@),
            lv == split_lines(output@),
            trim(output@).len() > 0,
            first_message(lv) == first_message(lv.skip(k as int)),
        decreases ls.len() - k,
    {
        let t = trimmed(&ls[k], 0);
        assert(ls@[k as int]@.skip(0) == lv[k as int]);
        assert(lv.skip(k as int)[0] == lv[k as int]);
        match message_of(&t) {
            Some(m) => {
                assert(first_message(lv) == Some(m@));
                return string_of(&m);
            },
            None => {},
        }
        assert(lv.skip(k as int).skip(1) == lv.skip(k + 1));
        k = k + 1;
    }
    assert(first_message(lv) is None);
    let mut k: usize = 0;
    while k < ls.len()
        invariant
            k <= ls.len(),
            lv == ls@.map_values(|l: Vec<char>| l@),
            lv == split_lines(output@),
            trim(output@).len() > 0,
            first_message(lv) is None,
            first_plain(lv) == first_plain(lv.skip(k as int)),
        decreases ls.len() - k,
    {
        let t = trimmed(&ls[k], 0);
        assert(ls@[k as int]@.skip(0) == lv[k as int]);
        assert(lv.skip(k as int)[0] == lv[k as int]);
        if is_plain_line(&t) {
            return string_of(&t);
        }
        assert(lv.skip(k as int).skip(1) == lv.skip(k + 1));
        k = k + 1;
    }
    String::from_str("Command execution failed")
}

/// The markers of an error line, searched in this order.
pub open spec fn error_marker(k: int) -> Seq<char> {
    if k == 0 {
        "error:"@
    } else if k == 1 {
        "Error:"@
    } else if k == 2 {
        "ERROR:"@
    } else if k == 3 {
        "failed:"@
    } else if k == 4 {
        "Failed:"@
    } else if k == 5 {
        "FAILED:"@
    } else if k == 6 {
        "panic:"@
    } else if k == 7 {
        "Panic:"@
    } else {
        "PANIC:"@
    }
}

pub const ERROR_MARKER_COUNT: usize = 9;

fn error_marker_text(k: usize) -> (r: &'static str)
    requires
        k < ERROR_MARKER_COUNT,
    ensures
        r@ == error_marker(k as int),
{
    if k == 0 {
        "error:"
    } else if k == 1 {
        "Error:"
    } else if k == 2 {
        "ERROR:"
    } else if k == 3 {
        "failed:"
    } else if k == 4 {
        "Failed:"
    } else if k == 5 {
        "FAILED:"
    } else if k == 6 {
        "panic:"
    } else if k == 7 {
        "Panic:"
    } else {
        "PANIC:"
    }
}

/// The bytes `p` stand in `b` at `i`.
pub open spec fn occurs_at(b: Seq<u8>, p: Seq<u8>, i: int) -> bool {
    0 <= i && i + p.len() <= b.len() && b.subrange(i, i + p.len()) == p
}

pub open spec fn marker_absent(b: Seq<u8>, k: int) -> bool {
    forall|i: int| !#[trigger] occurs_at(b, encode_utf8(error_marker(k)), i)
}

fn bytes_at(b: &Vec<u8>, p: &Vec<u8>, i: usize) -> (r: bool)
    requires
        i <= b.len(),
    ensures
        r == occurs_at(b@, p@, i as int),
{
    if p.len() > b.len() - i {
        return false;
    }
    let mut k: usize = 0;
    while k < p.len()
        invariant
            k <= p.len(),
            i + p.len() <= b.len(),
            b@.subrange(i as int, i + k) == p@.subrange(0, k as int),
        decreases p.len() - k,
    {
        if b[i + k] != p[k] {
            assert(b@.subrange(i as int, i + p.len())[k as int] != p@[k as int]);
            return false;
        }
        assert(b@.subrange(i as int, i + k + 1) == b@.subrange(i as int, i + k).push(b@[i + k]));
        assert(p@.subrange(0, k + 1) == p@.subrange(0, k as int).push(p@[k as int]));
        k = k + 1;
    }
    assert(p@.subrange(0, p.len() as int) == p@);
    true
}

/// Where the first error marker stands in the output, by the marker order,
/// and how far its line runs: offset and length in bytes, up to the next line
/// feed or the end. `None` where no marker occurs.
pub fn find_error_span(output: &str) -> (r: Option<(usize, usize)>)
    ensures
        r is None <==> forall|k: int| 0 <= k < 9 ==> marker_absent(output.spec_bytes(), k),
        r matches Some((pos, len)) ==> {
            let b = output.spec_bytes();
            &&& pos + len <= b.len()
            &&& pos + len == b.len() || b[pos + len] == 10
            &&& forall|j: int| pos <= j < pos + len ==> b[j] != 10
            &&& exists|k: int|
                0 <= k < 9 && (forall|m: int| 0 <= m < k ==> marker_absent(b, m)) && occurs_at(
                    b,
                    encode_utf8(error_marker(k)),
                    pos as int,
                ) && forall|j: int| 0 <= j < pos ==> !occurs_at(b, encode_utf8(error_marker(k)), j)
        },
{
    let b = output.as_bytes_vec();
    let mut k: usize = 0;
    while k < ERROR_MARKER_COUNT
        invariant
            b@ == output.spec_bytes(),
            k <= ERROR_MARKER_COUNT,
            forall|m: int| 0 <= m < k ==> marker_absent(b@, m),
        decreases ERROR_MARKER_COUNT - k,
    {
        let p = error_marker_text(k).as_bytes_vec();
        match first_occurrence(&b, &p) {
            Some(i) => {
                let mut e = i;
                while e < b.len() && b[e] != 10
                    invariant
                        i <= e <= b.len(),
                        forall|j: int| i <= j < e ==> b@[j] != 10,
                    decreases b.len() - e,
                {
                    e = e + 1;
                }
                assert(!marker_absent(b@, k as int));
                return Some((i, e - i));
            },
            None => {
                assert(marker_absent(b@, k as int));
            },
        }
        k = k + 1;
    }
    None
}

/// The first place where `p` stands in `b`.
fn first_occurrence(b: &Vec<u8>, p: &Vec<u8>) -> (r: Option<usize>)
    ensures
        r is None ==> forall|j: int| !#[trigger] occurs_at(b@, p@, j),
        r matches Some(i) ==> occurs_at(b@, p@, i as int) && forall|j: int|
            0 <= j < i ==> !occurs_at(b@, p@, j),
{
    let mut i: usize = 0;
    while i < b.len()
        invariant
            i <= b.len(),
            forall|j: int| 0 <= j < i ==> !occurs_at(b@, p@, j),
        decreases b.len() - i,
    {
        if bytes_at(b, p, i) {
            return Some(i);
        }
        i = i + 1;
    }
    if bytes_at(b, p, i) {
        return Some(i);
    }
    assert forall|j: int| !#[trigger] occurs_at(b@, p@, j) by {
        if j > b.len() as int {
            assert(!occurs_at(b@, p@, j));
        }
    }
    None
}

/// A failed orchestrator command, as shown to the user.
#[derive(Debug, Clone, PartialEq, Eq)]
pub struct MoonCommandFailure {
    pub command: String,
    /// The most telling line of the error output.
    pub main_error: String,
    /// The error output, where it has any text.
    pub stderr_output: Option<String>,
    /// Offset and length of the first error line in that output.
    pub error_span: Option<(usize, usize)>,
    pub exit_code: Option<i32>,
}

impl MoonCommandFailure {
    /// The failure of `command` with its error output and exit code.
    pub fn moon_command_failed(command: &str, stderr_output: &str, exit_code: Option<i32>) -> (r:
        MoonCommandFailure)
        ensures
            r.command@ == command@,
            r.main_error@ == main_error(stderr_output@),
            r.exit_code == exit_code,
            trim(stderr_output@).len() == 0 ==> r.stderr_output is None && r.error_span is None,
            trim(stderr_output@).len() > 0 ==> (r.stderr_output matches Some(s) && s@
                == stderr_output@),
            trim(stderr_output@).len() > 0 ==> (r.error_span is None <==> forall|k: int|
                0 <= k < 9 ==> marker_absent(stderr_output.spec_bytes(), k)),
    {
        let main_error = extract_moon_main_error(stderr_output);
        let s = chars_of(stderr_output);
        let whole = trimmed(&s, 0);
        assert(s@.skip(0) == s@);
        let (stderr_source, error_span) = if whole.len() == 0 {
            (None, None)
        } else {
            (Some(stderr_output.to_owned()), find_error_span(stderr_output))
        };
        MoonCommandFailure {
            command: command.to_owned(),
            main_error,
            stderr_output: stderr_source,
            error_span,
            exit_code,
        }
    }
}

} // verus!

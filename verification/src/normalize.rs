//! Normalization of generated output for comparison: strips
//! timestamps, identifiers and absolute paths that vary from run to
//! run, so that otherwise identical artifacts compare equal.

use vstd::prelude::*;

verus! {

/// ASCII whitespace, as trimmed from line ends.
pub open spec fn is_ws(c: char) -> bool {
    c == ' ' || c == '\t' || c == '\r' || c == '\n'
}

/// A line with its trailing whitespace removed.
pub open spec fn trim_end(l: Seq<char>) -> Seq<char>
    decreases l.len(),
{
    if l.len() > 0 && is_ws(l.last()) {
        trim_end(l.drop_last())
    } else {
        l
    }
}

/// Whether the pattern occurs at one position.
pub open spec fn occurs_at(t: Seq<char>, p: Seq<char>, i: int) -> bool {
    0 <= i && i + p.len() <= t.len() && forall|j: int| 0 <= j < p.len() ==> t[i + j] == #[trigger] p[j]
}

/// Whether the pattern occurs anywhere.
pub open spec fn contains_seq(t: Seq<char>, p: Seq<char>) -> bool {
    exists|i: int| #[trigger] occurs_at(t, p, i)
}

/// Whether a character is a hexadecimal digit.
pub open spec fn is_hex(c: char) -> bool {
    (48 <= (c as u32) && (c as u32) <= 57) || (97 <= (c as u32) && (c as u32) <= 102) || (65 <= (
    c as u32) && (c as u32) <= 70)
}

/// Whether a character counts as a word character for boundaries.
pub open spec fn is_word(c: char) -> bool {
    (48 <= (c as u32) && (c as u32) <= 57) || (97 <= (c as u32) && (c as u32) <= 122) || (65 <= (
    c as u32) && (c as u32) <= 90) || c == '_'
}

/// Whether a span of characters is all hexadecimal.
pub open spec fn hex_span(t: Seq<char>, i: int, n: int) -> bool {
    forall|j: int| i <= j < i + n ==> is_hex(#[trigger] t[j])
}

/// Whether a standard identifier of the 8-4-4-4-12 form starts at one
/// position, on word boundaries.
pub open spec fn uuid_at(t: Seq<char>, i: int) -> bool {
    &&& 0 <= i
    &&& i + 36 <= t.len()
    &&& hex_span(t, i, 8)
    &&& t[i + 8] == '-'
    &&& hex_span(t, i + 9, 4)
    &&& t[i + 13] == '-'
    &&& hex_span(t, i + 14, 4)
    &&& t[i + 18] == '-'
    &&& hex_span(t, i + 19, 4)
    &&& t[i + 23] == '-'
    &&& hex_span(t, i + 24, 12)
    &&& (i == 0 || !is_word(t[i - 1]))
    &&& (i + 36 == t.len() || !is_word(t[i + 36]))
}

/// The line with identifiers of the 8-4-4-4-12 form replaced, from one
/// position on.
pub open spec fn replace_uuids_from(t: Seq<char>, i: int) -> Seq<char>
    decreases t.len() - i,
{
    if i < 0 || i >= t.len() {
        Seq::empty()
    } else if uuid_at(t, i) {
        "<UUID>"@ + replace_uuids_from(t, i + 36)
    } else {
        seq![t[i]] + replace_uuids_from(t, i + 1)
    }
}

/// Whether a character may appear in a Unix path.
pub open spec fn is_upath(c: char) -> bool {
    is_word(c) || c == '/' || c == '.' || c == '-'
}

/// Whether a character may appear in a Windows path.
pub open spec fn is_wpath(c: char) -> bool {
    is_word(c) || c == '\\' || c == '.' || c == '-'
}

/// The index just past the Unix path run starting at `i`.
pub open spec fn upath_end(t: Seq<char>, i: int) -> int
    decreases t.len() - i,
{
    if 0 <= i < t.len() && is_upath(t[i]) {
        upath_end(t, i + 1)
    } else {
        i
    }
}

/// The index just past the Windows path run starting at `i`.
pub open spec fn wpath_end(t: Seq<char>, i: int) -> int
    decreases t.len() - i,
{
    if 0 <= i < t.len() && is_wpath(t[i]) {
        wpath_end(t, i + 1)
    } else {
        i
    }
}

/// The line with Unix absolute paths replaced, from one position on.
pub open spec fn replace_upaths_from(t: Seq<char>, i: int) -> Seq<char>
    decreases t.len() - i,
{
    if i < 0 || i >= t.len() {
        Seq::empty()
    } else if t[i] == '/' && i + 1 < t.len() && is_upath(t[i + 1]) {
        let e = if upath_end(t, i + 1) < i + 1 {
            i + 1
        } else if upath_end(t, i + 1) > t.len() {
            t.len() as int
        } else {
            upath_end(t, i + 1)
        };
        "<PATH>"@ + replace_upaths_from(t, e)
    } else {
        seq![t[i]] + replace_upaths_from(t, i + 1)
    }
}

/// Whether a character is an upper-case letter.
pub open spec fn is_upper(c: char) -> bool {
    65 <= (c as u32) && (c as u32) <= 90
}

/// The line with Windows absolute paths replaced, from one position
/// on.
pub open spec fn replace_wpaths_from(t: Seq<char>, i: int) -> Seq<char>
    decreases t.len() - i,
{
    if i < 0 || i >= t.len() {
        Seq::empty()
    } else if i + 3 < t.len() && is_upper(t[i]) && t[i + 1] == ':' && t[i + 2] == '\\' && is_wpath(
        t[i + 3],
    ) {
        let e = if wpath_end(t, i + 3) < i + 3 {
            i + 3
        } else if wpath_end(t, i + 3) > t.len() {
            t.len() as int
        } else {
            wpath_end(t, i + 3)
        };
        "<PATH>"@ + replace_wpaths_from(t, e)
    } else {
        seq![t[i]] + replace_wpaths_from(t, i + 1)
    }
}

/// One normalized line: a timestamp line collapses to a fixed marker;
/// any other line is trimmed and has identifiers and absolute paths
/// replaced.
pub open spec fn norm_line(l: Seq<char>) -> Seq<char> {
    let t = trim_end(l);
    if contains_seq(t, "Generated at:"@) || contains_seq(t, "Last modified:"@) {
        "// Generated at: <TIMESTAMP>"@
    } else {
        replace_wpaths_from(replace_upaths_from(replace_uuids_from(t, 0), 0), 0)
    }
}

/// The first newline at or after `i`, or the length.
pub open spec fn next_nl(s: Seq<char>, i: int) -> int
    decreases s.len() - i,
{
    if i < 0 || i >= s.len() {
        s.len() as int
    } else if s[i] == '\n' {
        i
    } else {
        next_nl(s, i + 1)
    }
}

/// The normalized lines from one position on, joined with single
/// newlines; a final line ending is dropped.
pub open spec fn norm_lines(s: Seq<char>, i: int) -> Seq<char>
    decreases s.len() - i,
{
    if i < 0 || i >= s.len() {
        Seq::empty()
    } else {
        let e = if next_nl(s, i) < i {
            i
        } else {
            next_nl(s, i)
        };
        let line = norm_line(s.subrange(i, e));
        if e >= s.len() - 1 {
            line
        } else {
            line + "\n"@ + norm_lines(s, e + 1)
        }
    }
}

/// What normalization produces for a whole text.
pub open spec fn spec_normalize(s: Seq<char>) -> Seq<char> {
    norm_lines(s, 0)
}


/// Whether the lines of a normalized text are kept by the firmware
/// filter.
pub open spec fn keep_line(l: Seq<char>) -> bool {
    !contains_seq(l, "QMK version:"@) && !contains_seq(l, "QMK Firmware"@)
}

/// The lines of a text, split at newlines, the final line ending
/// optional.
pub open spec fn lines_of(s: Seq<char>, i: int) -> Seq<Seq<char>>
    decreases s.len() - i,
{
    if i < 0 || i >= s.len() {
        Seq::empty()
    } else {
        let e = if next_nl(s, i) < i {
            i
        } else {
            next_nl(s, i)
        };
        let rest = if e >= s.len() {
            Seq::<Seq<char>>::empty()
        } else {
            lines_of(s, e + 1)
        };
        seq![s.subrange(i, e)] + rest
    }
}

/// The kept lines, in order.
pub open spec fn kept_lines(ls: Seq<Seq<char>>) -> Seq<Seq<char>>
    decreases ls.len(),
{
    if ls.len() == 0 {
        ls
    } else {
        let r = kept_lines(ls.drop_last());
        if keep_line(ls.last()) {
            r.push(ls.last())
        } else {
            r
        }
    }
}

/// Lines joined with single newlines.
pub open spec fn joined_lines(ls: Seq<Seq<char>>) -> Seq<char>
    decreases ls.len(),
{
    if ls.len() == 0 {
        Seq::empty()
    } else if ls.len() == 1 {
        ls[0]
    } else {
        joined_lines(ls.drop_last()) + "\n"@ + ls.last()
    }
}

/// What the firmware-specific normalization produces: the normalized
/// text with version-specific lines dropped.
pub open spec fn spec_normalize_firmware(s: Seq<char>) -> Seq<char> {
    joined_lines(kept_lines(lines_of(spec_normalize(s), 0)))
}

/// `next_nl` stays in range and finds the first newline.
proof fn lemma_next_nl(s: Seq<char>, i: int)
    requires
        0 <= i <= s.len(),
    ensures
        i <= next_nl(s, i) <= s.len(),
        next_nl(s, i) < s.len() ==> s[next_nl(s, i)] == '\n',
        forall|j: int| i <= j < next_nl(s, i) ==> s[j] != '\n',
    decreases s.len() - i,
{
    if i < s.len() && s[i] != '\n' {
        lemma_next_nl(s, i + 1);
    }
}

/// Whether the pattern occurs anywhere in the text, executably.
#[verifier::loop_isolation(false)]
pub fn contains_str(t: &str, p: &str) -> (r: bool)
    ensures
        r == contains_seq(t@, p@),
{
    let nt = t.unicode_len();
    let np = p.unicode_len();
    if np > nt {
        proof {
            if contains_seq(t@, p@) {
                let i = choose|i: int| #[trigger] occurs_at(t@, p@, i);
                assert(false);
            }
        }
        return false;
    }
    let mut i: usize = 0;
    while i <= nt - np
        invariant
            np <= nt == t@.len(),
            np == p@.len(),
            i <= nt - np + 1,
            forall|a: int| 0 <= a < i ==> !occurs_at(t@, p@, a),
        decreases nt - np + 1 - i,
    {
        let mut j: usize = 0;
        let mut ok = true;
        while j < np
            invariant
                j <= np,
                i <= nt - np,
                ok ==> forall|b: int| 0 <= b < j ==> t@[i + b] == #[trigger] p@[b],
                !ok ==> !occurs_at(t@, p@, i as int),
            decreases np - j,
        {
            if t.get_char(i + j) != p.get_char(j) {
                ok = false;
                j = np;
            } else {
                j = j + 1;
            }
        }
        if ok {
            proof {
                assert(occurs_at(t@, p@, i as int));
            }
            return true;
        }
        i = i + 1;
    }
    proof {
        if contains_seq(t@, p@) {
            let a = choose|a: int| #[trigger] occurs_at(t@, p@, a);
            assert(false);
        }
    }
    false
}

/// The end of the trimmed line: the index after the last
/// non-whitespace character.
fn trim_end_exec(l: &str) -> (e: usize)
    ensures
        e <= l@.len(),
        l@.subrange(0, e as int) == trim_end(l@),
{
    let mut e: usize = l.unicode_len();
    proof {
        assert(l@.subrange(0, l@.len() as int) =~= l@);
    }
    while e > 0
        invariant
            e <= l@.len(),
            trim_end(l@) == trim_end(l@.subrange(0, e as int)),
        decreases e,
    {
        proof {
            assert(l@.subrange(0, e as int).drop_last() =~= l@.subrange(0, e - 1));
        }
        let c = l.get_char(e - 1);
        if c == ' ' || c == '\t' || c == '\r' || c == '\n' {
            e = e - 1;
        } else {
            return e;
        }
    }
    proof {
        assert(l@.subrange(0, 0) =~= Seq::<char>::empty());
    }
    0
}

/// Whether a hexadecimal span sits at a position.
#[verifier::loop_isolation(false)]
fn hex_span_exec(t: &str, i: usize, n: usize) -> (r: bool)
    requires
        i + n <= t@.len(),
    ensures
        r == hex_span(t@, i as int, n as int),
{
    let tl = t.unicode_len();
    let mut j: usize = 0;
    while j < n
        invariant
            j <= n,
            i + n <= t@.len(),
            forall|b: int| i <= b < i + j ==> is_hex(#[trigger] t@[b]),
        decreases n - j,
    {
        let c = t.get_char(i + j) as u32;
        if !((48 <= c && c <= 57) || (97 <= c && c <= 102) || (65 <= c && c <= 70)) {
            return false;
        }
        j = j + 1;
    }
    true
}

/// Whether a word character sits at a position.
fn is_word_at(t: &str, i: usize) -> (r: bool)
    requires
        i < t@.len(),
    ensures
        r == is_word(t@[i as int]),
{
    let c = t.get_char(i);
    let u = c as u32;
    (48 <= u && u <= 57) || (97 <= u && u <= 122) || (65 <= u && u <= 90) || c == '_'
}

/// Whether an identifier of the 8-4-4-4-12 form sits at a position.
#[verifier::loop_isolation(false)]
fn uuid_at_exec(t: &str, i: usize) -> (r: bool)
    requires
        i <= t@.len(),
    ensures
        r == uuid_at(t@, i as int),
{
    let n = t.unicode_len();
    if n - i < 36 {
        return false;
    }
    if !hex_span_exec(t, i, 8) {
        return false;
    }
    if t.get_char(i + 8) != '-' {
        return false;
    }
    if !hex_span_exec(t, i + 9, 4) {
        return false;
    }
    if t.get_char(i + 13) != '-' {
        return false;
    }
    if !hex_span_exec(t, i + 14, 4) {
        return false;
    }
    if t.get_char(i + 18) != '-' {
        return false;
    }
    if !hex_span_exec(t, i + 19, 4) {
        return false;
    }
    if t.get_char(i + 23) != '-' {
        return false;
    }
    if !hex_span_exec(t, i + 24, 12) {
        return false;
    }
    if i > 0 && is_word_at(t, i - 1) {
        return false;
    }
    if i + 36 < n && is_word_at(t, i + 36) {
        return false;
    }
    true
}

/// Appends one character to a string.
fn push_char_at(out: &mut String, t: &str, i: usize)
    requires
        i < t@.len(),
    ensures
        final(out)@ == old(out)@ + seq![t@[i as int]],
{
    let tl = t.unicode_len();
    let piece = t.substring_char(i, i + 1);
    out.append(piece);
    proof {
        assert(t@.subrange(i as int, i + 1) =~= seq![t@[i as int]]);
    }
}

/// Replaces identifiers of the 8-4-4-4-12 form.
#[verifier::loop_isolation(false)]
fn replace_uuids_exec(t: &str) -> (r: String)
    ensures
        r@ == replace_uuids_from(t@, 0),
{
    let n = t.unicode_len();
    let mut out = String::new();
    let mut i: usize = 0;
    while i < n
        invariant
            i <= n == t@.len(),
            replace_uuids_from(t@, 0) == out@ + replace_uuids_from(t@, i as int),
        decreases n - i,
    {
        if uuid_at_exec(t, i) {
            out.append("<UUID>");
            i = i + 36;
        } else {
            push_char_at(&mut out, t, i);
            i = i + 1;
        }
    }
    out
}

/// Whether a Unix path character sits at a position.
fn is_upath_at(t: &str, i: usize) -> (r: bool)
    requires
        i < t@.len(),
    ensures
        r == is_upath(t@[i as int]),
{
    let c = t.get_char(i);
    is_word_at(t, i) || c == '/' || c == '.' || c == '-'
}

/// Whether a Windows path character sits at a position.
fn is_wpath_at(t: &str, i: usize) -> (r: bool)
    requires
        i < t@.len(),
    ensures
        r == is_wpath(t@[i as int]),
{
    let c = t.get_char(i);
    is_word_at(t, i) || c == '\\' || c == '.' || c == '-'
}

/// Replaces Unix absolute paths.
#[verifier::loop_isolation(false)]
fn replace_upaths_exec(t: &str) -> (r: String)
    ensures
        r@ == replace_upaths_from(t@, 0),
{
    let n = t.unicode_len();
    let mut out = String::new();
    let mut i: usize = 0;
    while i < n
        invariant
            i <= n == t@.len(),
            replace_upaths_from(t@, 0) == out@ + replace_upaths_from(t@, i as int),
        decreases n - i,
    {
        let mut advanced = false;
        if t.get_char(i) == '/' && i + 1 < n {
            if is_upath_at(t, i + 1) {
                let mut e: usize = i + 1;
                while e < n && is_upath_at(t, e)
                    invariant
                        i + 1 <= e <= n,
                        upath_end(t@, i + 1) == upath_end(t@, e as int),
                    decreases n - e,
                {
                    e = e + 1;
                }
                out.append("<PATH>");
                i = e;
                advanced = true;
            }
        }
        if !advanced {
            push_char_at(&mut out, t, i);
            i = i + 1;
        }
    }
    out
}

/// Replaces Windows absolute paths.
#[verifier::loop_isolation(false)]
fn replace_wpaths_exec(t: &str) -> (r: String)
    ensures
        r@ == replace_wpaths_from(t@, 0),
{
    let n = t.unicode_len();
    let mut out = String::new();
    let mut i: usize = 0;
    while i < n
        invariant
            i <= n == t@.len(),
            replace_wpaths_from(t@, 0) == out@ + replace_wpaths_from(t@, i as int),
        decreases n - i,
    {
        let mut advanced = false;
        if n - i > 3 {
            let c = t.get_char(i);
            let u = c as u32;
            if 65 <= u && u <= 90 && t.get_char(i + 1) == ':' && t.get_char(i + 2) == '\\' {
                if is_wpath_at(t, i + 3) {
                    let mut e: usize = i + 3;
                    while e < n && is_wpath_at(t, e)
                        invariant
                            i + 3 <= e <= n,
                            wpath_end(t@, i + 3) == wpath_end(t@, e as int),
                        decreases n - e,
                    {
                        e = e + 1;
                    }
                    out.append("<PATH>");
                    i = e;
                    advanced = true;
                }
            }
        }
        if !advanced {
            push_char_at(&mut out, t, i);
            i = i + 1;
        }
    }
    out
}

/// Normalizes one line.
fn norm_line_exec(l: &str) -> (r: String)
    ensures
        r@ == norm_line(l@),
{
    let e = trim_end_exec(l);
    let t = l.substring_char(0, e);
    if contains_str(t, "Generated at:") || contains_str(t, "Last modified:") {
        String::from_str("// Generated at: <TIMESTAMP>")
    } else {
        let a = replace_uuids_exec(t);
        let b = replace_upaths_exec(a.as_str());
        replace_wpaths_exec(b.as_str())
    }
}

/// The first newline at or after a position, executably.
fn next_nl_exec(s: &str, i: usize) -> (e: usize)
    requires
        i <= s@.len(),
    ensures
        e == next_nl(s@, i as int),
        i <= e <= s@.len(),
{
    proof {
        lemma_next_nl(s@, i as int);
    }
    let n = s.unicode_len();
    let mut e: usize = i;
    while e < n
        invariant
            i <= e <= n == s@.len(),
            next_nl(s@, i as int) == next_nl(s@, e as int),
        decreases n - e,
    {
        if s.get_char(e) == '\n' {
            return e;
        }
        e = e + 1;
    }
    e
}

/// Normalizes output for comparison: trims line ends, collapses
/// timestamp lines to a fixed marker, and replaces identifiers and
/// absolute paths with fixed markers.
#[verifier::loop_isolation(false)]
pub fn normalize_output(content: &str) -> (r: String)
    ensures
        r@ == spec_normalize(content@),
{
    let n = content.unicode_len();
    let mut out = String::new();
    let mut i: usize = 0;
    while i < n
        invariant
            i <= n == content@.len(),
            norm_lines(content@, 0) == out@ + norm_lines(content@, i as int),
        decreases n - i,
    {
        proof {
            lemma_next_nl(content@, i as int);
        }
        let e = next_nl_exec(content, i);
        let line = content.substring_char(i, e);
        let nl = norm_line_exec(line);
        out.append(nl.as_str());
        if e >= n - 1 {
            i = n;
        } else {
            out.append("\n");
            i = e + 1;
        }
    }
    proof {
        if n == 0 {
            assert(out@ =~= norm_lines(content@, 0));
        }
    }
    out
}

/// Normalizes firmware output: as [`normalize_output`], and drops
/// version-specific lines.
#[verifier::loop_isolation(false)]
pub fn normalize_firmware_output(content: &str) -> (r: String)
    ensures
        r@ == spec_normalize_firmware(content@),
{
    let normalized = normalize_output(content);
    let s = normalized.as_str();
    let n = s.unicode_len();
    // Split into lines.
    let mut parts: Vec<String> = Vec::new();
    let mut i: usize = 0;
    while i < n
        invariant
            i <= n == s@.len(),
            lines_of(s@, 0) == parts@.map_values(|p: String| p@) + lines_of(s@, i as int),
        decreases n - i,
    {
        proof {
            lemma_next_nl(s@, i as int);
        }
        let e = next_nl_exec(s, i);
        let line = s.substring_char(i, e);
        let ghost old_seq = parts@.map_values(|p: String| p@);
        parts.push(String::from_str(line));
        proof {
            assert(parts@.map_values(|p: String| p@) =~= old_seq + seq![
                s@.subrange(i as int, e as int),
            ]);
            assert((old_seq + seq![s@.subrange(i as int, e as int)]) + (if e as int >= s@.len() {
                Seq::<Seq<char>>::empty()
            } else {
                lines_of(s@, e + 1)
            }) =~= old_seq + (seq![s@.subrange(i as int, e as int)] + (if e as int >= s@.len() {
                Seq::<Seq<char>>::empty()
            } else {
                lines_of(s@, e + 1)
            })));
        }
        if e == n {
            i = n;
        } else {
            i = e + 1;
        }
    }
    let ghost lseq = parts@.map_values(|p: String| p@);
    proof {
        assert(lseq + lines_of(s@, n as int) =~= lseq);
        assert(lines_of(s@, 0) == lseq);
    }
    // Filter and join.
    let mut out = String::new();
    let mut any = false;
    let np = parts.len();
    let mut pi: usize = 0;
    while pi < np
        invariant
            pi <= np == parts@.len(),
            lseq == parts@.map_values(|p: String| p@),
            any == (kept_lines(lseq.subrange(0, pi as int)).len() > 0),
            out@ == joined_lines(kept_lines(lseq.subrange(0, pi as int))),
        decreases np - pi,
    {
        proof {
            assert(lseq.subrange(0, pi + 1).drop_last() =~= lseq.subrange(0, pi as int));
            assert(lseq.subrange(0, pi + 1).last() == parts@[pi as int]@);
        }
        let keep = !contains_str(parts[pi].as_str(), "QMK version:") && !contains_str(
            parts[pi].as_str(),
            "QMK Firmware",
        );
        if keep {
            let ghost prev = kept_lines(lseq.subrange(0, pi as int));
            if any {
                out.append("\n");
            }
            out.append(parts[pi].as_str());
            any = true;
            proof {
                if prev.len() > 0 {
                    assert(kept_lines(lseq.subrange(0, pi + 1)).drop_last() =~= prev);
                } else {
                    assert(kept_lines(lseq.subrange(0, pi + 1)) =~= seq![parts@[pi as int]@]);
                    assert(out@ =~= parts@[pi as int]@);
                }
            }
        }
        pi = pi + 1;
    }
    proof {
        assert(lseq.subrange(0, np as int) =~= lseq);
    }
    out
}

} // verus!
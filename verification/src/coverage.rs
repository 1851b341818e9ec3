use vstd::prelude::*;
use vstd::string::StringExecFns;
use crate::numerals::dec_rep;
use crate::numerals::usize_to_string;
use crate::supervisor::ExecOutcome;

verus! {

// ---------------------------------------------------------------------------
// The grammar of the external coverage tool's textual report, over bytes: the
// percentage stands in the fourth column of the line that follows the first
// dashed separator line.
// ---------------------------------------------------------------------------
/// An ASCII whitespace byte.
pub open spec fn is_ws(b: u8) -> bool {
    b == 9 || b == 10 || b == 11 || b == 12 || b == 13 || b == 32
}

/// An ASCII decimal digit byte.
pub open spec fn is_digit(b: u8) -> bool {
    48 <= b <= 57
}

/// The index of the first occurrence of `b` in `s`; the length of `s` when
/// `b` does not occur.
pub open spec fn first_at(s: Seq<u8>, b: u8) -> nat
    decreases s.len(),
{
    if s.len() == 0 {
        0
    } else if s[0] == b {
        0
    } else {
        1 + first_at(s.skip(1), b)
    }
}

pub proof fn lemma_first_at(s: Seq<u8>, b: u8)
    ensures
        first_at(s, b) <= s.len(),
        first_at(s, b) < s.len() ==> s[first_at(s, b) as int] == b,
        forall|k: int| 0 <= k < first_at(s, b) ==> s[k] != b,
    decreases s.len(),
{
    if s.len() > 0 && s[0] != b {
        lemma_first_at(s.skip(1), b);
        assert forall|k: int| 0 <= k < first_at(s, b) implies s[k] != b by {
            if k > 0 {
                assert(s.skip(1)[k - 1] == s[k]);
            }
        }
    }
}

/// A line with one trailing carriage return removed, as the report's lines
/// are read.
pub open spec fn strip_cr(l: Seq<u8>) -> Seq<u8> {
    if l.len() > 0 && l[l.len() - 1] == 13 {
        l.take(l.len() - 1)
    } else {
        l
    }
}

/// The lines of `s`: split on the newline byte, one trailing carriage return
/// per line removed, no empty line for a trailing newline.
pub open spec fn split_lines(s: Seq<u8>) -> Seq<Seq<u8>>
    decreases s.len(),
{
    if s.len() == 0 {
        Seq::empty()
    } else {
        let i = first_at(s, 10);
        if i < s.len() {
            seq![strip_cr(s.take(i as int))] + split_lines(s.skip(i as int + 1))
        } else {
            seq![strip_cr(s)]
        }
    }
}

/// `t` with leading ASCII whitespace removed.
pub open spec fn trim_start(t: Seq<u8>) -> Seq<u8>
    decreases t.len(),
{
    if t.len() > 0 && is_ws(t[0]) {
        trim_start(t.skip(1))
    } else {
        t
    }
}

/// `t` with trailing ASCII whitespace removed.
pub open spec fn trim_end(t: Seq<u8>) -> Seq<u8>
    decreases t.len(),
{
    if t.len() > 0 && is_ws(t[t.len() - 1]) {
        trim_end(t.take(t.len() - 1))
    } else {
        t
    }
}

/// `t` with ASCII whitespace removed at both ends.
pub open spec fn trim(t: Seq<u8>) -> Seq<u8> {
    trim_end(trim_start(t))
}

/// `t` with every trailing percent sign removed.
pub open spec fn strip_percents(t: Seq<u8>) -> Seq<u8>
    decreases t.len(),
{
    if t.len() > 0 && t[t.len() - 1] == 37 {
        strip_percents(t.take(t.len() - 1))
    } else {
        t
    }
}

/// What one raw space-separated field contributes to the token list: nothing
/// when it trims to nothing; otherwise the trimmed field, trailing percent
/// signs removed.
pub open spec fn emit_token(raw: Seq<u8>) -> Seq<Seq<u8>> {
    if trim(raw).len() == 0 {
        Seq::empty()
    } else {
        seq![strip_percents(trim(raw))]
    }
}

/// The cleaned tokens of one report line: the line split on single spaces,
/// each field trimmed, empty fields dropped, trailing percent signs removed.
pub open spec fn clean_tokens(line: Seq<u8>) -> Seq<Seq<u8>>
    decreases line.len(),
{
    let i = first_at(line, 32);
    if i < line.len() {
        emit_token(line.take(i as int)) + clean_tokens(line.skip(i as int + 1))
    } else {
        emit_token(line)
    }
}

/// The value of a digit string, most significant digit first.
pub open spec fn digits_value(t: Seq<u8>) -> int
    decreases t.len(),
{
    if t.len() == 0 {
        0
    } else {
        digits_value(t.take(t.len() - 1)) * 10 + (t[t.len() - 1] - 48)
    }
}

pub open spec fn all_digits(t: Seq<u8>) -> bool {
    forall|k: int| 0 <= k < t.len() ==> is_digit(#[trigger] t[k])
}

/// How a token parses as an unsigned 8-bit decimal number: an optional
/// leading plus sign, then at least one digit, nothing else, and a value
/// that fits.
pub open spec fn parse_u8(t: Seq<u8>) -> Option<u8> {
    let d = if t.len() > 0 && t[0] == 43 {
        t.skip(1)
    } else {
        t
    };
    if d.len() > 0 && all_digits(d) && digits_value(d) <= 255 {
        Some(digits_value(d) as u8)
    } else {
        None
    }
}

proof fn lemma_digits_value_nonneg(t: Seq<u8>)
    requires
        all_digits(t),
    ensures
        digits_value(t) >= 0,
    decreases t.len(),
{
    if t.len() > 0 {
        lemma_digits_value_nonneg(t.take(t.len() - 1));
    }
}

proof fn lemma_digits_prefix_le(t: Seq<u8>, i: int)
    requires
        all_digits(t),
        0 <= i <= t.len(),
    ensures
        digits_value(t.take(i)) <= digits_value(t),
    decreases t.len() - i,
{
    if i < t.len() {
        lemma_digits_value_nonneg(t.take(i));
        assert(t.take(i + 1).take(i) =~= t.take(i));
        lemma_digits_prefix_le(t, i + 1);
    } else {
        assert(t.take(i) =~= t);
    }
}

/// Whether a report line is the dashed separator: it starts with at least
/// nine dash bytes.
pub open spec fn dashes_prefix(l: Seq<u8>) -> bool {
    l.len() >= 9 && forall|k: int| 0 <= k < 9 ==> #[trigger] l[k] == 45
}

/// The index of the first dashed separator among the lines; the number of
/// lines when there is none.
pub open spec fn first_dashes(ls: Seq<Seq<u8>>) -> nat
    decreases ls.len(),
{
    if ls.len() == 0 {
        0
    } else if dashes_prefix(ls[0]) {
        0
    } else {
        1 + first_dashes(ls.skip(1))
    }
}

pub proof fn lemma_first_dashes(ls: Seq<Seq<u8>>)
    ensures
        first_dashes(ls) <= ls.len(),
        first_dashes(ls) < ls.len() ==> dashes_prefix(ls[first_dashes(ls) as int]),
        forall|k: int| 0 <= k < first_dashes(ls) ==> !dashes_prefix(ls[k]),
    decreases ls.len(),
{
    if ls.len() > 0 && !dashes_prefix(ls[0]) {
        lemma_first_dashes(ls.skip(1));
        assert forall|k: int| 0 <= k < first_dashes(ls) implies !dashes_prefix(ls[k]) by {
            if k > 0 {
                assert(ls.skip(1)[k - 1] == ls[k]);
            }
        }
    }
}

/// The percentage the line after the separator reports: its fourth cleaned
/// token as an 8-bit decimal number.
pub open spec fn token_percent(line: Seq<u8>) -> Option<u8> {
    let ts = clean_tokens(line);
    if ts.len() <= 3 {
        None
    } else {
        parse_u8(ts[3])
    }
}

/// What the whole report text yields: the percentage on the line after the
/// first dashed separator; zero when no separator line is found or nothing
/// follows it; nothing when that line has no readable fourth column.
pub open spec fn report_percent(text: Seq<u8>) -> Option<u8> {
    let ls = split_lines(text);
    let i = first_dashes(ls);
    if i >= ls.len() {
        Some(0u8)
    } else if i + 1 >= ls.len() {
        Some(0u8)
    } else {
        token_percent(ls[i as int + 1])
    }
}

// ---------------------------------------------------------------------------
// The executable parser.
// ---------------------------------------------------------------------------
/// The byte sequences a vector of byte vectors holds.
pub open spec fn byte_seqs(v: Seq<Vec<u8>>) -> Seq<Seq<u8>> {
    v.map_values(|x: Vec<u8>| x@)
}

fn ws_byte(b: u8) -> (r: bool)
    ensures
        r == is_ws(b),
{
    b == 9 || b == 10 || b == 11 || b == 12 || b == 13 || b == 32
}

fn is_dashes_line(l: &[u8]) -> (r: bool)
    ensures
        r == dashes_prefix(l@),
{
    if l.len() < 9 {
        return false;
    }
    let mut k: usize = 0;
    while k < 9
        invariant
            0 <= k <= 9,
            l@.len() >= 9,
            forall|m: int| 0 <= m < k ==> #[trigger] l@[m] == 45,
        decreases 9 - k,
    {
        if l[k] != 45 {
            return false;
        }
        k = k + 1;
    }
    true
}

/// Parses one cleaned token as the report's percentage number.
fn parse_u8_token(t: &[u8]) -> (r: Option<u8>)
    ensures
        r == parse_u8(t@),
{
    let mut k: usize = 0;
    if t.len() > 0 && t[0] == 43 {
        k = 1;
    }
    let ghost d = if t@.len() > 0 && t@[0] == 43 {
        t@.skip(1)
    } else {
        t@
    };
    proof {
        assert(t@.skip(0) =~= t@);
        assert(d =~= t@.skip(k as int));
    }
    if k >= t.len() {
        return None;
    }
    let mut acc: u32 = 0;
    let mut i: usize = k;
    while i < t.len()
        invariant
            k <= i <= t@.len(),
            d == (if t@.len() > 0 && t@[0] == 43 {
                t@.skip(1)
            } else {
                t@
            }),
            d == t@.skip(k as int),
            d.len() == t@.len() - k,
            acc <= 255,
            all_digits(d.take(i - k)),
            acc == digits_value(d.take(i - k)),
        decreases t@.len() - i,
    {
        let b = t[i];
        proof {
            assert(d[i - k] == t@[i as int]);
        }
        if b < 48 || b > 57 {
            proof {
                assert(!is_digit(d[i - k]));
                assert(!all_digits(d));
            }
            return None;
        }
        let next: u32 = acc * 10 + ((b - 48) as u32);
        proof {
            assert(d.take(i - k + 1).take(i - k) =~= d.take(i - k));
            assert(d.take(i - k + 1)[i - k] == b);
            assert(digits_value(d.take(i - k + 1)) == next);
            assert(all_digits(d.take(i - k + 1)));
        }
        if next > 255 {
            proof {
                if all_digits(d) && digits_value(d) <= 255 {
                    lemma_digits_prefix_le(d, i - k + 1);
                }
            }
            return None;
        }
        acc = next;
        i = i + 1;
    }
    proof {
        assert(d.take(i - k) =~= d);
    }
    Some(acc as u8)
}

/// Scans forward from `start` to the first occurrence of `b`, or to the end.
fn scan_to(text: &[u8], start: usize, b: u8) -> (j: usize)
    requires
        start <= text@.len(),
    ensures
        start <= j <= text@.len(),
        forall|m: int| start <= m < j ==> text@[m] != b,
        j < text@.len() ==> text@[j as int] == b,
{
    let mut j: usize = start;
    while j < text.len() && text[j] != b
        invariant
            start <= j <= text@.len(),
            forall|m: int| start <= m < j ==> text@[m] != b,
        decreases text@.len() - j,
    {
        j = j + 1;
    }
    j
}

/// From a scan that stopped at `j`, the first occurrence of `b` in the tail
/// of `text` that starts at `start` is at offset `j - start` (or absent, when
/// the scan reached the end).
proof fn lemma_scan_first_at(text: Seq<u8>, start: int, j: int, b: u8)
    requires
        0 <= start <= j <= text.len(),
        forall|m: int| start <= m < j ==> text[m] != b,
        j < text.len() ==> text[j] == b,
    ensures
        first_at(text.skip(start), b) == j - start,
{
    let tail = text.skip(start);
    lemma_first_at(tail, b);
    let f = first_at(tail, b) as int;
    assert(forall|m: int| 0 <= m < tail.len() ==> tail[m] == text[start + m]);
    if f < j - start {
        assert(tail[f] == b);
        assert(text[start + f] != b);
        assert(false);
    }
    if f > j - start {
        assert(j < text.len());
        assert(tail[j - start] == b);
        assert(tail[j - start] != b);
        assert(false);
    }
}

/// Copies `text[from..to]` out as a fresh vector.
fn copy_range(text: &[u8], from: usize, to: usize) -> (r: Vec<u8>)
    requires
        from <= to <= text@.len(),
    ensures
        r@ == text@.subrange(from as int, to as int),
{
    let mut r: Vec<u8> = Vec::new();
    let mut m: usize = from;
    while m < to
        invariant
            from <= m <= to <= text@.len(),
            r@ == text@.subrange(from as int, m as int),
        decreases to - m,
    {
        r.push(text[m]);
        m = m + 1;
        proof {
            assert(r@ =~= text@.subrange(from as int, m as int));
        }
    }
    r
}

/// Splits the report text into its lines.
fn lines_of(text: &[u8]) -> (r: Vec<Vec<u8>>)
    ensures
        byte_seqs(r@) == split_lines(text@),
{
    let mut r: Vec<Vec<u8>> = Vec::new();
    let mut start: usize = 0;
    proof {
        assert(text@.skip(0) =~= text@);
        assert(byte_seqs(r@) =~= Seq::<Seq<u8>>::empty());
        assert(byte_seqs(r@) + split_lines(text@.skip(0)) =~= split_lines(text@));
    }
    while start < text.len()
        invariant
            start <= text@.len(),
            byte_seqs(r@) + split_lines(text@.skip(start as int)) == split_lines(text@),
        decreases text@.len() - start,
    {
        let ghost pre = byte_seqs(r@);
        let ghost tail = text@.skip(start as int);
        let j = scan_to(text, start, 10);
        proof {
            lemma_scan_first_at(text@, start as int, j as int, 10);
        }
        let mut endx: usize = j;
        if endx > start && text[endx - 1] == 13 {
            endx = endx - 1;
        }
        let line = copy_range(text, start, endx);
        proof {
            let raw = text@.subrange(start as int, j as int);
            assert(forall|m: int| 0 <= m < raw.len() ==> raw[m] == text@[start + m]);
            assert(line@ =~= strip_cr(raw));
            if j < text@.len() {
                assert(tail.take(j - start) =~= raw);
                assert(tail.skip(j - start + 1) =~= text@.skip(j + 1));
                assert(split_lines(tail) == seq![strip_cr(raw)] + split_lines(
                    text@.skip(j + 1),
                ));
            } else {
                assert(tail =~= raw);
                assert(split_lines(tail) == seq![strip_cr(raw)]);
            }
        }
        r.push(line);
        proof {
            assert(byte_seqs(r@) =~= pre.push(line@));
        }
        if j < text.len() {
            start = j + 1;
            proof {
                assert(byte_seqs(r@) + split_lines(text@.skip(start as int)) =~= split_lines(
                    text@,
                ));
            }
        } else {
            start = text.len();
            proof {
                assert(text@.skip(start as int) =~= Seq::<u8>::empty());
                assert(split_lines(text@.skip(start as int)) =~= Seq::<Seq<u8>>::empty());
                assert(byte_seqs(r@) + split_lines(text@.skip(start as int)) =~= split_lines(
                    text@,
                ));
            }
        }
    }
    proof {
        assert(text@.skip(start as int) =~= Seq::<u8>::empty());
        assert(byte_seqs(r@) =~= split_lines(text@));
    }
    r
}

/// Splits one report line into its cleaned tokens.
fn tokens_of(line: &[u8]) -> (r: Vec<Vec<u8>>)
    ensures
        byte_seqs(r@) == clean_tokens(line@),
{
    let mut r: Vec<Vec<u8>> = Vec::new();
    let mut start: usize = 0;
    proof {
        assert(line@.skip(0) =~= line@);
        assert(byte_seqs(r@) =~= Seq::<Seq<u8>>::empty());
        assert(byte_seqs(r@) + clean_tokens(line@.skip(0)) =~= clean_tokens(line@));
    }
    loop
        invariant_except_break
            start <= line@.len(),
            byte_seqs(r@) + clean_tokens(line@.skip(start as int)) == clean_tokens(line@),
        ensures
            byte_seqs(r@) == clean_tokens(line@),
        decreases line@.len() - start + 1,
    {
        let ghost pre = byte_seqs(r@);
        let ghost tail = line@.skip(start as int);
        let j = scan_to(line, start, 32);
        proof {
            lemma_scan_first_at(line@, start as int, j as int, 32);
        }
        let ghost raw = line@.subrange(start as int, j as int);
        // trim leading whitespace
        let mut a: usize = start;
        while a < j && ws_byte(line[a])
            invariant
                start <= a <= j <= line@.len(),
                raw == line@.subrange(start as int, j as int),
                trim_start(raw) == trim_start(line@.subrange(a as int, j as int)),
            decreases j - a,
        {
            proof {
                let cur = line@.subrange(a as int, j as int);
                assert(cur[0] == line@[a as int]);
                assert(cur.skip(1) =~= line@.subrange(a as int + 1, j as int));
            }
            a = a + 1;
        }
        proof {
            let cur = line@.subrange(a as int, j as int);
            if cur.len() > 0 {
                assert(cur[0] == line@[a as int]);
            }
            assert(trim_start(raw) == cur);
        }
        // trim trailing whitespace
        let mut bx: usize = j;
        while bx > a && ws_byte(line[bx - 1])
            invariant
                start <= a <= bx <= j <= line@.len(),
                trim_end(line@.subrange(a as int, j as int)) == trim_end(
                    line@.subrange(a as int, bx as int),
                ),
            decreases bx - a,
        {
            proof {
                let cur = line@.subrange(a as int, bx as int);
                assert(cur[cur.len() - 1] == line@[bx - 1]);
                assert(cur.take(cur.len() - 1) =~= line@.subrange(a as int, bx as int - 1));
            }
            bx = bx - 1;
        }
        proof {
            let cur = line@.subrange(a as int, bx as int);
            if cur.len() > 0 {
                assert(cur[cur.len() - 1] == line@[bx - 1]);
            }
            assert(trim_end(line@.subrange(a as int, j as int)) == cur);
            assert(trim(raw) == cur);
        }
        // strip trailing percent signs
        let mut c: usize = bx;
        while c > a && line[c - 1] == 37
            invariant
                start <= a <= c <= bx <= line@.len(),
                strip_percents(line@.subrange(a as int, bx as int)) == strip_percents(
                    line@.subrange(a as int, c as int),
                ),
            decreases c - a,
        {
            proof {
                let cur = line@.subrange(a as int, c as int);
                assert(cur[cur.len() - 1] == line@[c - 1]);
                assert(cur.take(cur.len() - 1) =~= line@.subrange(a as int, c as int - 1));
            }
            c = c - 1;
        }
        proof {
            let cur = line@.subrange(a as int, c as int);
            if cur.len() > 0 {
                assert(cur[cur.len() - 1] == line@[c - 1]);
            }
            assert(strip_percents(trim(raw)) == cur);
        }
        if bx > a {
            let token = copy_range(line, a, c);
            r.push(token);
            proof {
                assert(emit_token(raw) =~= seq![line@.subrange(a as int, c as int)]);
                assert(byte_seqs(r@) =~= pre + emit_token(raw));
            }
        } else {
            proof {
                assert(emit_token(raw) =~= Seq::<Seq<u8>>::empty());
                assert(byte_seqs(r@) =~= pre + emit_token(raw));
            }
        }
        if j < line.len() {
            proof {
                assert(tail.take(j - start) =~= raw);
                assert(tail.skip(j - start + 1) =~= line@.skip(j + 1));
                assert(clean_tokens(tail) == emit_token(raw) + clean_tokens(line@.skip(j + 1)));
                assert(byte_seqs(r@) + clean_tokens(line@.skip(j + 1)) =~= clean_tokens(line@));
            }
            start = j + 1;
        } else {
            proof {
                assert(tail =~= raw);
                assert(clean_tokens(tail) == emit_token(raw));
                assert(byte_seqs(r@) =~= clean_tokens(line@));
            }
            break ;
        }
    }
    r
}

/// The index of the first dashed separator line; the line count when none
/// occurs.
fn first_dashes_index(lines: &Vec<Vec<u8>>) -> (i: usize)
    ensures
        i as nat == first_dashes(byte_seqs(lines@)),
{
    let ghost ls = byte_seqs(lines@);
    proof {
        lemma_first_dashes(ls);
    }
    let mut i: usize = 0;
    while i < lines.len()
        invariant
            i <= lines@.len(),
            ls == byte_seqs(lines@),
            forall|k: int| 0 <= k < i ==> !dashes_prefix(ls[k]),
            first_dashes(ls) <= ls.len(),
            first_dashes(ls) < ls.len() ==> dashes_prefix(ls[first_dashes(ls) as int]),
            forall|k: int| 0 <= k < first_dashes(ls) ==> !dashes_prefix(ls[k]),
        decreases lines@.len() - i,
    {
        if is_dashes_line(lines[i].as_slice()) {
            proof {
                assert(ls[i as int] == lines@[i as int]@);
                assert(dashes_prefix(ls[i as int]));
                assert(first_dashes(ls) == i as nat);
            }
            return i;
        }
        proof {
            assert(ls[i as int] == lines@[i as int]@);
        }
        i = i + 1;
    }
    proof {
        assert(first_dashes(ls) == ls.len());
    }
    i
}

/// Parses the coverage tool's textual report: the percentage in the fourth
/// column of the line after the first dashed separator; zero when the report
/// has no separator or nothing follows it; nothing when that line does not
/// carry a readable percentage.
pub fn parse_coverage_report(report: &[u8]) -> (r: Option<u8>)
    ensures
        r == report_percent(report@),
{
    let lines = lines_of(report);
    let ghost ls = split_lines(report@);
    let i = first_dashes_index(&lines);
    if i >= lines.len() {
        return Some(0);
    }
    if i + 1 >= lines.len() {
        return Some(0);
    }
    let toks = tokens_of(lines[i + 1].as_slice());
    proof {
        assert(byte_seqs(lines@)[i as int + 1] == lines@[i as int + 1]@);
    }
    if toks.len() <= 3 {
        return None;
    }
    let r = parse_u8_token(toks[3].as_slice());
    proof {
        assert(byte_seqs(toks@)[3] == toks@[3]@);
    }
    r
}

/// Renders a coverage outcome as the caller sees it: the percentage in
/// decimal, or the failure sentinel when any stage failed.
pub fn coverage_result(percent: Option<u8>) -> (s: String)
    ensures
        percent matches Some(p) ==> s@ == dec_rep(p as nat),
        percent is None ==> s@ == "-1"@,
{
    match percent {
        Some(p) => usize_to_string(p as usize),
        None => String::from_str("-1"),
    }
}

/// Whether a coverage stage may proceed: only a child that exited cleanly
/// with code 0 lets the run go on; any other exit, a timeout, or a failure
/// ends the whole coverage request with the failure sentinel.
pub fn coverage_run_ok(o: &ExecOutcome) -> (r: bool)
    ensures
        r <==> ((*o) matches ExecOutcome::Exited { code, .. } && code == Some(0i32)),
{
    match o {
        ExecOutcome::Exited { code: Some(c), .. } => *c == 0,
        _ => false,
    }
}

} // verus!

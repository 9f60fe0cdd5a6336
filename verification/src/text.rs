//! Text helpers: ordering of strings, building strings character by character,
//! replacing placeholders, and the small labels that the screens show.
use vstd::prelude::*;
use vstd::string::StringSliceAdditionalSpecFns;

verus! {

/// `a` comes strictly before `b` in lexicographic order of characters (the order
/// of `String`'s `Ord`, since UTF-8 keeps the order of code points).
pub open spec fn seq_lt(a: Seq<char>, b: Seq<char>) -> bool
    decreases a.len(),
{
    if a.len() == 0 {
        b.len() > 0
    } else if b.len() == 0 {
        false
    } else if a[0] != b[0] {
        (a[0] as int) < (b[0] as int)
    } else {
        seq_lt(a.subrange(1, a.len() as int), b.subrange(1, b.len() as int))
    }
}

/// No string comes before itself, and two strings cannot both come before each other.
pub proof fn lemma_seq_lt_asymmetric(a: Seq<char>, b: Seq<char>)
    ensures
        !(seq_lt(a, b) && seq_lt(b, a)),
        !seq_lt(a, a),
    decreases a.len(),
{
    if a.len() > 0 && b.len() > 0 && a[0] == b[0] {
        lemma_seq_lt_asymmetric(a.subrange(1, a.len() as int), b.subrange(1, b.len() as int));
    }
    if a.len() > 0 {
        lemma_seq_lt_asymmetric(a.subrange(1, a.len() as int), a.subrange(1, a.len() as int));
    }
}

/// Lexicographic order is transitive.
pub proof fn lemma_seq_lt_transitive(a: Seq<char>, b: Seq<char>, c: Seq<char>)
    requires
        seq_lt(a, b),
        seq_lt(b, c),
    ensures
        seq_lt(a, c),
    decreases a.len(),
{
    if a.len() > 0 && b.len() > 0 && c.len() > 0 && a[0] == b[0] && b[0] == c[0] {
        lemma_seq_lt_transitive(
            a.subrange(1, a.len() as int),
            b.subrange(1, b.len() as int),
            c.subrange(1, c.len() as int),
        );
    }
}

/// Two different strings are ordered one way or the other.
pub proof fn lemma_seq_lt_total(a: Seq<char>, b: Seq<char>)
    ensures
        a =~= b || seq_lt(a, b) || seq_lt(b, a),
    decreases a.len(),
{
    if a.len() > 0 && b.len() > 0 && a[0] == b[0] {
        lemma_seq_lt_total(a.subrange(1, a.len() as int), b.subrange(1, b.len() as int));
        if a.subrange(1, a.len() as int) =~= b.subrange(1, b.len() as int) {
            assert forall|i: int| 0 <= i < a.len() implies a[i] == b[i] by {
                if i > 0 {
                    assert(a[i] == a.subrange(1, a.len() as int)[i - 1]);
                    assert(b[i] == b.subrange(1, b.len() as int)[i - 1]);
                }
            }
        }
    }
    if a.len() > 0 && b.len() > 0 && a[0] != b[0] {
        assert((a[0] as int) != (b[0] as int));
    }
}

/// Whether `a` comes strictly before `b`, comparing character by character.
pub fn str_lt(a: &str, b: &str) -> (r: bool)
    ensures
        r == seq_lt(a@, b@),
{
    let la = a.unicode_len();
    let lb = b.unicode_len();
    let mut i: usize = 0;
    assert(a@.subrange(0, la as int) =~= a@);
    assert(b@.subrange(0, lb as int) =~= b@);
    while i < la && i < lb
        invariant
            la == a@.len(),
            lb == b@.len(),
            i <= la,
            i <= lb,
            forall|j: int| 0 <= j < i ==> a@[j] == b@[j],
            seq_lt(a@, b@) == seq_lt(a@.subrange(i as int, la as int), b@.subrange(i as int, lb as int)),
        decreases la - i,
    {
        let ca = a.get_char(i);
        let cb = b.get_char(i);
        let ghost sa = a@.subrange(i as int, la as int);
        let ghost sb = b@.subrange(i as int, lb as int);
        assert(sa[0] == ca && sb[0] == cb);
        if ca != cb {
            return (ca as u32) < (cb as u32);
        }
        assert(sa.subrange(1, sa.len() as int) =~= a@.subrange(i + 1, la as int));
        assert(sb.subrange(1, sb.len() as int) =~= b@.subrange(i + 1, lb as int));
        i += 1;
    }
    i < lb
}

/// Calls `String::push`: appends one character.
/// Claimed: the string afterwards is the old one followed by the character.
#[verifier::external_body]
pub fn push_char(s: &mut String, c: char)
    ensures
        final(s)@ == old(s)@.push(c),
{
    s.push(c)
}


/// `s` with every occurrence of `pat` replaced by `rep`, scanning left to right
/// without overlaps (the behaviour of `str::replace` for a non-empty pattern).
pub open spec fn replace_all(s: Seq<char>, pat: Seq<char>, rep: Seq<char>) -> Seq<char>
    decreases s.len(),
{
    if pat.len() == 0 || s.len() < pat.len() {
        s
    } else if s.subrange(0, pat.len() as int) == pat {
        rep + replace_all(s.subrange(pat.len() as int, s.len() as int), pat, rep)
    } else {
        seq![s[0]] + replace_all(s.subrange(1, s.len() as int), pat, rep)
    }
}

/// The characters of a string.
pub fn chars_of(s: &str) -> (v: Vec<char>)
    ensures
        v@ == s@,
{
    let n = s.unicode_len();
    let mut v: Vec<char> = Vec::new();
    let mut i: usize = 0;
    while i < n
        invariant
            n == s@.len(),
            i <= n,
            v@ == s@.subrange(0, i as int),
        decreases n - i,
    {
        v.push(s.get_char(i));
        i += 1;
        assert(v@ =~= s@.subrange(0, i as int));
    }
    assert(s@.subrange(0, n as int) =~= s@);
    v
}

/// Replaces every occurrence of the non-empty pattern `pat` in `s` by `rep`.
pub fn replace_str(s: &str, pat: &str, rep: &str) -> (r: String)
    requires
        pat@.len() > 0,
    ensures
        r@ == replace_all(s@, pat@, rep@),
{
    let sc = chars_of(s);
    let pc = chars_of(pat);
    let n = sc.len();
    let m = pc.len();
    let mut out = String::new();
    let mut i: usize = 0;
    assert(s@.subrange(0, n as int) =~= s@);
    while i < n
        invariant
            sc@ == s@,
            pc@ == pat@,
            n == s@.len(),
            m == pat@.len(),
            m > 0,
            i <= n,
            out@ + replace_all(s@.subrange(i as int, n as int), pat@, rep@) == replace_all(s@, pat@, rep@),
        decreases n - i,
    {
        let ghost rest = s@.subrange(i as int, n as int);
        let mut matched = m <= n - i;
        let mut j: usize = 0;
        while matched && j < m
            invariant
                i + m <= n ==> matched == forall|k: int| 0 <= k < j ==> sc@[i + k] == pc@[k],
                i + m > n ==> !matched,
                j <= m,
                sc@ == s@,
                pc@ == pat@,
                n == s@.len(),
                m == pat@.len(),
                i < n,
            decreases m - j,
        {
            if sc[i + j] != pc[j] {
                matched = false;
            }
            j += 1;
        }
        if matched {
            assert(rest.subrange(0, m as int) =~= pat@);
            assert(rest.subrange(m as int, rest.len() as int) =~= s@.subrange(i + m, n as int));
            out.append(rep);
            i += m;
            assert(out@ + replace_all(s@.subrange(i as int, n as int), pat@, rep@) == replace_all(s@, pat@, rep@));
        } else {
            proof {
                if rest.len() >= m {
                    let k = choose|k: int| 0 <= k < m && sc@[i + k] != pc@[k];
                    assert(rest.subrange(0, m as int)[k] != pat@[k]);
                }
            }
            assert(rest.subrange(1, rest.len() as int) =~= s@.subrange(i + 1, n as int));
            push_char(&mut out, sc[i]);
            i += 1;
            assert(out@ + replace_all(s@.subrange(i as int, n as int), pat@, rep@) == replace_all(s@, pat@, rep@));
        }
    }
    assert(s@.subrange(n as int, n as int) =~= Seq::<char>::empty());
    assert(out@ =~= replace_all(s@, pat@, rep@));
    out
}

/// The digit character for `d` (0-9).
pub open spec fn digit_char(d: int) -> char {
    seq!['0', '1', '2', '3', '4', '5', '6', '7', '8', '9'][d]
}

/// The decimal digits of `n`, most significant first, without leading zeros.
pub open spec fn decimal(n: nat) -> Seq<char>
    decreases n,
{
    if n < 10 {
        seq![digit_char(n as int)]
    } else {
        decimal(n / 10).push(digit_char((n % 10) as int))
    }
}

/// Appends the decimal digits of `n`.
pub fn push_decimal(s: &mut String, n: u64)
    ensures
        final(s)@ == old(s)@ + decimal(n as nat),
    decreases n,
{
    let digits = ['0', '1', '2', '3', '4', '5', '6', '7', '8', '9'];
    assert(digits@ =~= seq!['0', '1', '2', '3', '4', '5', '6', '7', '8', '9']);
    if n >= 10 {
        push_decimal(s, n / 10);
    }
    let d = (n % 10) as usize;
    push_char(s, digits[d]);
    assert(final(s)@ =~= old(s)@ + decimal(n as nat)) by {
        if n >= 10 {
            assert(decimal(n as nat) == decimal((n / 10) as nat).push(digit_char((n % 10) as int)));
        }
    }
}

/// The decimal form of `n`.
pub fn u64_to_string(n: u64) -> (r: String)
    ensures
        r@ == decimal(n as nat),
{
    let mut r = String::new();
    push_decimal(&mut r, n);
    assert(r@ =~= decimal(n as nat));
    r
}

/// `n` spaces.
pub open spec fn spaces(n: nat) -> Seq<char> {
    Seq::new(n, |i: int| ' ')
}

/// Appends `n` spaces.
fn push_spaces(s: &mut String, n: usize)
    ensures
        final(s)@ == old(s)@ + spaces(n as nat),
{
    let mut i: usize = 0;
    while i < n
        invariant
            i <= n,
            s@ == old(s)@ + spaces(i as nat),
        decreases n - i,
    {
        push_char(s, ' ');
        i += 1;
        assert(s@ =~= old(s)@ + spaces(i as nat));
    }
}

/// The label of a 2048 tile, seven columns wide: a centred dot for an empty
/// cell, else the value centred (one more space on the right when the padding
/// is odd; no padding once the value has seven digits or more).
pub open spec fn tile_text(value: u32) -> Seq<char> {
    if value == 0 {
        seq![' ', ' ', ' ', '\u{b7}', ' ', ' ', ' ']
    } else {
        let label = decimal(value as nat);
        let padding: int = if label.len() < 7 { 7 - label.len() } else { 0 };
        let left = padding / 2;
        spaces(left as nat) + label + spaces((padding - left) as nat)
    }
}

/// The label of a 2048 tile.
pub fn tile_label(value: u32) -> (r: String)
    ensures
        r@ == tile_text(value),
{
    if value == 0 {
        let r = String::from_str("   \u{b7}   ");
        proof {
            reveal_strlit("   \u{b7}   ");
        }
        assert(r@ =~= tile_text(value));
        return r;
    }
    let label = u64_to_string(value as u64);
    let total: usize = 7;
    let len = label.as_str().unicode_len();
    let padding = total.saturating_sub(len);
    let left = padding / 2;
    let right = padding.saturating_sub(left);
    let mut r = String::new();
    push_spaces(&mut r, left);
    r.append(label.as_str());
    push_spaces(&mut r, right);
    assert(r@ =~= tile_text(value));
    r
}

/// `s` cut to fit `max_len` bytes: kept whole when it fits, else its first
/// `max_len - 2` bytes followed by "..".
pub open spec fn truncated(s: &str, max_len: int) -> Seq<char> {
    if s.spec_bytes().len() <= max_len {
        s@
    } else {
        vstd::utf8::decode_utf8(s.spec_bytes().subrange(0, max_len - 2)) + seq!['.', '.']
    }
}

/// Cuts `s` to fit `max_len` bytes, marking the cut with "..". A cut must leave
/// room for the mark and fall between two characters.
pub fn truncate_str(s: &str, max_len: usize) -> (r: String)
    requires
        s.spec_bytes().len() <= usize::MAX,
        s.spec_bytes().len() > max_len ==> max_len >= 2 && vstd::utf8::is_char_boundary(
            s.spec_bytes(),
            max_len - 2,
        ),
    ensures
        r@ == truncated(s, max_len as int),
{
    broadcast use vstd::utf8::encode_utf8_decode_utf8;

    if s.len() <= max_len {
        String::from_str(s)
    } else {
        let (head, _) = s.split_at(max_len - 2);
        let mut r = String::from_str(head);
        r.append("..");
        proof {
            reveal_strlit("..");
            assert(head.spec_bytes() =~= s.spec_bytes().subrange(0, max_len - 2));
            assert(head.spec_bytes() == vstd::utf8::encode_utf8(head@));
            assert(head@ == vstd::utf8::decode_utf8(vstd::utf8::encode_utf8(head@)));
            assert(r@ =~= head@ + seq!['.', '.']);
        }
        r
    }
}

/// How long ago something happened, given the seconds since: "just now" under
/// a minute, then whole minutes, hours or days ("1 min ago", "5 hours ago").
pub open spec fn ago_text(seconds: int) -> Seq<char> {
    if seconds < 60 {
        "just now"@
    } else if seconds / 60 < 60 {
        let m = seconds / 60;
        decimal(m as nat) + " min"@ + (if m == 1 { ""@ } else { "s"@ }) + " ago"@
    } else if seconds / 3600 < 24 {
        let h = seconds / 3600;
        decimal(h as nat) + " hour"@ + (if h == 1 { ""@ } else { "s"@ }) + " ago"@
    } else {
        let d = seconds / 86400;
        decimal(d as nat) + " day"@ + (if d == 1 { ""@ } else { "s"@ }) + " ago"@
    }
}

/// Appends a count with its unit, the unit made plural unless the count is one, and " ago".
fn push_count_ago(r: &mut String, n: u64, unit: &str)
    ensures
        final(r)@ == old(r)@ + decimal(n as nat) + unit@ + (if n == 1 { ""@ } else { "s"@ }) + " ago"@,
{
    push_decimal(r, n);
    r.append(unit);
    if n != 1 {
        r.append("s");
    }
    r.append(" ago");
    proof {
        reveal_strlit("");
        reveal_strlit("s");
        reveal_strlit(" ago");
    }
    assert(final(r)@ =~= old(r)@ + decimal(n as nat) + unit@ + (if n == 1 { ""@ } else { "s"@ }) + " ago"@);
}

/// How long ago something happened, given the seconds since.
pub fn time_ago_text(seconds: i64) -> (r: String)
    ensures
        r@ == ago_text(seconds as int),
{
    let mut r = String::new();
    proof {
        reveal_strlit("just now");
        reveal_strlit(" min");
        reveal_strlit(" hour");
        reveal_strlit(" day");
    }
    if seconds < 60 {
        r.append("just now");
    } else if seconds / 60 < 60 {
        push_count_ago(&mut r, (seconds / 60) as u64, " min");
    } else if seconds / 3600 < 24 {
        push_count_ago(&mut r, (seconds / 3600) as u64, " hour");
    } else {
        push_count_ago(&mut r, (seconds / 86400) as u64, " day");
    }
    assert(r@ =~= ago_text(seconds as int));
    r
}

/// The cells of the twenty-cell happiness bar: filled in proportion to the
/// happiness (rounded down), the rest empty.
pub fn happiness_bar_cells(happiness: u8) -> (cells: (usize, usize))
    requires
        happiness <= 100,
    ensures
        cells.0 == happiness as int * 20 / 100,
        cells.0 + cells.1 == 20,
{
    let bar_width: usize = 20;
    let filled = (happiness as usize * bar_width) / 100;
    let empty = bar_width - filled;
    (filled, empty)
}

/// The length of a ten-cell count bar: a count of zero draws nothing; any other
/// count draws in proportion to the largest count (rounded down, with the
/// largest drawn at ten cells), but at least one cell.
pub open spec fn count_bar_spec(count: int, max_count: int) -> int {
    if count == 0 {
        0
    } else {
        let n = count * 10 / if max_count < 1 { 1 } else { max_count };
        if n < 1 { 1 } else { n }
    }
}

/// The number of filled cells of a count bar (see `count_bar_spec`).
pub fn count_bar_len(count: u32, max_count: u32) -> (cells: u64)
    ensures
        cells == count_bar_spec(count as int, max_count as int),
        count <= max_count ==> cells <= 10,
{
    if count == 0 {
        return 0;
    }
    let divisor: u64 = if max_count < 1 { 1 } else { max_count as u64 };
    let n: u64 = (count as u64 * 10) / divisor;
    proof {
        let c = count as int;
        let m = divisor as int;
        if count <= max_count {
            assert(c * 10 / m <= 10) by (nonlinear_arith)
                requires c <= m, m >= 1, c >= 0;
        }
    }
    if n < 1 { 1 } else { n }
}

} // verus!

//! Small verified text utilities shared by the message builder and the
//! protocol dialogs.
use vstd::prelude::*;

verus! {

/// Appends one character to a `String` (std's `String::push`).
#[verifier::external_body]
pub fn push_char(s: &mut String, c: char)
    ensures
        final(s)@ == old(s)@.push(c),
{
    s.push(c);
}

/// The character views of a sequence of strings.
pub open spec fn texts(v: Seq<String>) -> Seq<Seq<char>> {
    v.map_values(|s: String| s@)
}

/// `items` concatenated with `sep` between neighbours (std's `join`).
pub open spec fn joined(items: Seq<Seq<char>>, sep: Seq<char>) -> Seq<char>
    decreases items.len(),
{
    if items.len() == 0 {
        seq![]
    } else if items.len() == 1 {
        items[0]
    } else {
        joined(items.drop_last(), sep) + sep + items.last()
    }
}

/// Joins `items` with `sep` between neighbours.
pub fn join_strings(items: &Vec<String>, sep: &str) -> (joined_text: String)
    ensures
        joined_text@ == joined(texts(items@), sep@),
{
    let mut out = String::new();
    let n = items.len();
    let ghost views = texts(items@);
    let mut i: usize = 0;
    while i < n
        invariant
            n == items@.len(),
            views == texts(items@),
            views.len() == n,
            i <= n,
            out@ == joined(views.take(i as int), sep@),
        decreases n - i,
    {
        if i != 0 {
            out.append(sep);
        }
        out.append(items[i].as_str());
        proof {
            assert(views.take(i + 1).drop_last() =~= views.take(i as int));
            assert(views.take(i + 1).last() == items@[i as int]@);
            if i == 0 {
                assert(views.take(0) =~= Seq::<Seq<char>>::empty());
            }
        }
        i = i + 1;
    }
    assert(views.take(n as int) =~= views);
    out
}

/// The decimal digit character for `d` (0 to 9).
pub open spec fn digit(d: nat) -> char {
    (d + 48) as char
}

/// Decimal notation of `n`, without leading zeros (std's `Display` for integers).
pub open spec fn decimal(n: nat) -> Seq<char>
    decreases n,
{
    if n < 10 {
        seq![digit(n)]
    } else {
        decimal(n / 10).push(digit(n % 10))
    }
}

/// Appends the decimal notation of `n` to `s`.
pub fn append_decimal(s: &mut String, n: u64)
    ensures
        final(s)@ == old(s)@ + decimal(n as nat),
    decreases n,
{
    if n >= 10 {
        append_decimal(s, n / 10);
    }
    let d = ((n % 10) as u8 + 48) as char;
    push_char(s, d);
    assert(decimal(n as nat) == if n < 10 {
        seq![digit(n as nat)]
    } else {
        decimal((n / 10) as nat).push(digit((n % 10) as nat))
    });
}

/// Whether `prefix` is a prefix of `s` (std's `str::starts_with` for a string pattern).
pub fn starts_with(s: &str, prefix: &str) -> (b: bool)
    ensures
        b == prefix@.is_prefix_of(s@),
{
    let n = prefix.unicode_len();
    let m = s.unicode_len();
    if n > m {
        return false;
    }
    let mut i: usize = 0;
    while i < n
        invariant
            n == prefix@.len(),
            m == s@.len(),
            n <= m,
            i <= n,
            forall|j: int| 0 <= j < i ==> prefix@[j] == s@[j],
        decreases n - i,
    {
        if s.get_char(i) != prefix.get_char(i) {
            assert(prefix@[i as int] != s@.subrange(0, n as int)[i as int]);
            return false;
        }
        i = i + 1;
    }
    assert(prefix@ =~= s@.subrange(0, n as int));
    true
}

/// Whether `a` and `b` hold the same characters.
pub fn same_text(a: &str, b: &str) -> (eq: bool)
    ensures
        eq == (a@ == b@),
{
    if a.unicode_len() != b.unicode_len() {
        return false;
    }
    let r = starts_with(a, b);
    proof {
        if r {
            assert(a@ =~= b@);
        }
    }
    r
}

/// The characters that Unicode gives the `White_Space` property (std's
/// `char::is_whitespace`).
pub open spec fn is_whitespace(c: char) -> bool {
    ||| ('\u{9}' <= c && c <= '\u{d}')
    ||| c == ' '
    ||| c == '\u{85}'
    ||| c == '\u{a0}'
    ||| c == '\u{1680}'
    ||| ('\u{2000}' <= c && c <= '\u{200a}')
    ||| c == '\u{2028}'
    ||| c == '\u{2029}'
    ||| c == '\u{202f}'
    ||| c == '\u{205f}'
    ||| c == '\u{3000}'
}

fn whitespace_char(c: char) -> (b: bool)
    ensures
        b == is_whitespace(c),
{
    ('\u{9}' <= c && c <= '\u{d}') || c == ' ' || c == '\u{85}' || c == '\u{a0}' || c == '\u{1680}'
        || ('\u{2000}' <= c && c <= '\u{200a}') || c == '\u{2028}' || c == '\u{2029}' || c
        == '\u{202f}' || c == '\u{205f}' || c == '\u{3000}'
}

/// `s` without its trailing whitespace (std's `str::trim_end`).
pub open spec fn trim_end(s: Seq<char>) -> Seq<char>
    decreases s.len(),
{
    if s.len() > 0 && is_whitespace(s.last()) {
        trim_end(s.drop_last())
    } else {
        s
    }
}

/// A copy of `s` without its trailing whitespace.
pub fn trimmed_end(s: &str) -> (r: String)
    ensures
        r@ == trim_end(s@),
{
    let n = s.unicode_len();
    let mut end = n;
    assert(s@.subrange(0, n as int) =~= s@);
    while end > 0 && whitespace_char(s.get_char(end - 1))
        invariant
            n == s@.len(),
            end <= n,
            trim_end(s@) == trim_end(s@.subrange(0, end as int)),
        decreases end,
    {
        assert(s@.subrange(0, end as int).drop_last() =~= s@.subrange(0, end - 1));
        end = end - 1;
    }
    let kept = s.substring_char(0, end);
    String::from_str(kept)
}

/// `needle` occurs in `text` as a contiguous piece.
pub open spec fn contains_text(text: Seq<char>, needle: Seq<char>) -> bool {
    exists|k: int| 0 <= k && k + needle.len() <= text.len() && #[trigger] text.subrange(k, k + needle.len()) == needle
}

/// A piece placed between two texts occurs in the result.
pub proof fn lemma_contains_middle(before: Seq<char>, piece: Seq<char>, after: Seq<char>)
    ensures
        contains_text(before + piece + after, piece),
{
    let whole = before + piece + after;
    assert(whole.subrange(before.len() as int, (before.len() + piece.len()) as int) =~= piece);
}

/// Occurrence is transitive.
pub proof fn lemma_contains_trans(text: Seq<char>, middle: Seq<char>, needle: Seq<char>)
    requires
        contains_text(text, middle),
        contains_text(middle, needle),
    ensures
        contains_text(text, needle),
{
    let k1 = choose|k: int| 0 <= k && k + middle.len() <= text.len() && #[trigger] text.subrange(k, k + middle.len()) == middle;
    let k2 = choose|k: int| 0 <= k && k + needle.len() <= middle.len() && #[trigger] middle.subrange(k, k + needle.len()) == needle;
    assert(text.subrange(k1 + k2, k1 + k2 + needle.len()) =~= needle);
}

/// Every item occurs in the joined text.
pub proof fn lemma_joined_contains(items: Seq<Seq<char>>, sep: Seq<char>, i: int)
    requires
        0 <= i < items.len(),
    ensures
        contains_text(joined(items, sep), items[i]),
    decreases items.len(),
{
    if items.len() == 1 {
        lemma_contains_middle(Seq::empty(), items[0], Seq::empty());
        assert(Seq::<char>::empty() + items[0] + Seq::<char>::empty() =~= items[0]);
    } else if i == items.len() - 1 {
        lemma_contains_middle(joined(items.drop_last(), sep) + sep, items.last(), Seq::empty());
        assert(joined(items.drop_last(), sep) + sep + items.last() + Seq::<char>::empty()
            =~= joined(items, sep));
    } else {
        lemma_joined_contains(items.drop_last(), sep, i);
        let front = joined(items.drop_last(), sep);
        lemma_contains_middle(Seq::empty(), front, sep + items.last());
        assert(Seq::<char>::empty() + front + (sep + items.last()) =~= joined(items, sep));
        lemma_contains_trans(joined(items, sep), front, items[i]);
    }
}

/// An item that is neither first nor last occurs in the joined text with a
/// separator on each side.
pub proof fn lemma_joined_contains_inner(items: Seq<Seq<char>>, sep: Seq<char>, i: int)
    requires
        0 < i < items.len() - 1,
    ensures
        contains_text(joined(items, sep), sep + items[i] + sep),
    decreases items.len(),
{
    let front = items.drop_last();
    if i < items.len() - 2 {
        lemma_joined_contains_inner(front, sep, i);
        lemma_contains_middle(Seq::empty(), joined(front, sep), sep + items.last());
        assert(Seq::<char>::empty() + joined(front, sep) + (sep + items.last()) =~= joined(items, sep));
        lemma_contains_trans(joined(items, sep), joined(front, sep), sep + items[i] + sep);
    } else {
        let before = joined(front.drop_last(), sep);
        assert(front.last() == items[i]);
        assert(joined(front, sep) == before + sep + items[i]);
        lemma_contains_middle(before, sep + items[i] + sep, items.last());
        assert(before + (sep + items[i] + sep) + items.last() =~= joined(items, sep));
    }
}

} // verus!

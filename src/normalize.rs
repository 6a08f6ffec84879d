//! Cleaning up an inbound chat message before it reaches the command engine.
use vstd::prelude::*;

verus! {

pub open spec fn is_ascii_digit(c: char) -> bool {
    '0' <= c && c <= '9'
}

/// Number of ASCII digits at the start of `s`.
pub open spec fn digit_run(s: Seq<char>) -> nat
    decreases s.len(),
{
    if s.len() > 0 && is_ascii_digit(s[0]) {
        1 + digit_run(s.drop_first())
    } else {
        0
    }
}

/// Length of the user mention `<@` digits `>` that starts `s`, or 0 when `s`
/// does not start with one.
pub open spec fn mention_len(s: Seq<char>) -> nat {
    if s.len() >= 2 && s[0] == '<' && s[1] == '@' {
        let d = digit_run(s.subrange(2, s.len() as int));
        if d > 0 && 2 + d < s.len() && s[(2 + d) as int] == '>' {
            d + 3
        } else {
            0
        }
    } else {
        0
    }
}

/// `s` with every user mention removed, scanning left to right and taking
/// each mention whole once it starts.
pub open spec fn strip_mentions_spec(s: Seq<char>) -> Seq<char>
    decreases s.len(),
{
    if s.len() == 0 {
        Seq::empty()
    } else if mention_len(s) > 0 {
        strip_mentions_spec(s.subrange(mention_len(s) as int, s.len() as int))
    } else {
        seq![s[0]] + strip_mentions_spec(s.drop_first())
    }
}

proof fn lemma_mention_len_bound(s: Seq<char>)
    ensures
        mention_len(s) <= s.len(),
{
    lemma_digit_run_bound(s.subrange(2, s.len() as int));
}

proof fn lemma_digit_run_bound(s: Seq<char>)
    ensures
        digit_run(s) <= s.len(),
        forall|k: int| 0 <= k < digit_run(s) ==> is_ascii_digit(#[trigger] s[k]),
        digit_run(s) < s.len() ==> !is_ascii_digit(s[digit_run(s) as int]),
    decreases s.len(),
{
    if s.len() > 0 && is_ascii_digit(s[0]) {
        lemma_digit_run_bound(s.drop_first());
        assert forall|k: int| 0 <= k < digit_run(s) implies is_ascii_digit(#[trigger] s[k]) by {
            if k > 0 {
                assert(s[k] == s.drop_first()[k - 1]);
            }
        }
    }
}

/// Counts the digits of `s` from char position `start` on.
fn digits_from(s: &str, start: usize) -> (n: usize)
    requires
        start <= s@.len(),
    ensures
        n == digit_run(s@.subrange(start as int, s@.len() as int)),
        n <= s@.len() - start,
{
    let len = s.unicode_len();
    let mut i: usize = start;
    proof {
        lemma_digit_run_bound(s@.subrange(start as int, s@.len() as int));
    }
    while i < len && is_digit_at(s, i)
        invariant
            len == s@.len(),
            start <= i <= len,
            digit_run(s@.subrange(start as int, len as int)) == (i - start) + digit_run(
                s@.subrange(i as int, len as int),
            ),
        decreases len - i,
    {
        proof {
            let t = s@.subrange(i as int, len as int);
            assert(t.drop_first() =~= s@.subrange(i + 1, len as int));
        }
        i = i + 1;
    }
    proof {
        let t = s@.subrange(i as int, len as int);
        if i < len {
            assert(t[0] == s@[i as int]);
        }
    }
    i - start
}

fn is_digit_at(s: &str, i: usize) -> (r: bool)
    requires
        i < s@.len(),
    ensures
        r == is_ascii_digit(s@[i as int]),
{
    let c = s.get_char(i);
    '0' <= c && c <= '9'
}

/// Length of the mention that starts at char position `i` of `s`, or 0.
fn mention_at(s: &str, i: usize) -> (m: usize)
    requires
        i <= s@.len(),
    ensures
        m == mention_len(s@.subrange(i as int, s@.len() as int)),
        m <= s@.len() - i,
{
    let len = s.unicode_len();
    let ghost t = s@.subrange(i as int, len as int);
    proof {
        lemma_mention_len_bound(t);
    }
    if len - i >= 2 && s.get_char(i) == '<' && s.get_char(i + 1) == '@' {
        let d = digits_from(s, i + 2);
        assert(t.subrange(2, t.len() as int) =~= s@.subrange(i + 2, len as int));
        if d > 0 && 2 + d < len - i && s.get_char(i + 2 + d) == '>' {
            d + 3
        } else {
            0
        }
    } else {
        0
    }
}

/// Removes every user mention (`<@` followed by one or more ASCII digits and
/// `>`) from a message body; all other characters are kept in order.
pub fn strip_mentions(text: &str) -> (r: String)
    ensures
        r@ == strip_mentions_spec(text@),
{
    let len = text.unicode_len();
    let mut out = String::new();
    let mut i: usize = 0;
    assert(text@.subrange(0, len as int) =~= text@);
    while i < len
        invariant
            len == text@.len(),
            i <= len,
            out@ + strip_mentions_spec(text@.subrange(i as int, len as int)) == strip_mentions_spec(
                text@,
            ),
        decreases len - i,
    {
        let ghost t = text@.subrange(i as int, len as int);
        let m = mention_at(text, i);
        if m > 0 {
            assert(t.subrange(m as int, t.len() as int) =~= text@.subrange(i + m, len as int));
            i = i + m;
        } else {
            let piece = text.substring_char(i, i + 1);
            assert(t.drop_first() =~= text@.subrange(i + 1, len as int));
            assert(piece@ =~= seq![t[0]]);
            out.append(piece);
            assert(out@ + strip_mentions_spec(text@.subrange(i + 1, len as int)) =~= strip_mentions_spec(text@));
            i = i + 1;
        }
    }
    assert(text@.subrange(0, len as int) =~= text@);
    out
}

/// Cleaning the same text twice gives the same text: any two results that
/// meet the contract of [`strip_mentions`] on one input are equal.
pub proof fn lemma_cleaning_is_repeatable(text: Seq<char>, first: Seq<char>, second: Seq<char>)
    requires
        first == strip_mentions_spec(text),
        second == strip_mentions_spec(text),
    ensures
        first == second,
{
}

/// Sum of the declared attachment sizes.
pub open spec fn total_size(sizes: Seq<u64>) -> int
    decreases sizes.len(),
{
    if sizes.len() == 0 {
        0
    } else {
        total_size(sizes.drop_last()) + sizes.last()
    }
}

/// Whether the attachments of a message are, all together, larger than `cap`
/// bytes. A message over the cap is answered with a fixed notice and never
/// reaches the engine.
pub fn exceeds_size_cap(sizes: &Vec<u64>, cap: u64) -> (r: bool)
    ensures
        r == (total_size(sizes@) > cap),
{
    let mut total: u64 = 0;
    let mut i: usize = 0;
    while i < sizes.len()
        invariant
            i <= sizes@.len(),
            total == total_size(sizes@.subrange(0, i as int)),
            total <= cap,
        decreases sizes@.len() - i,
    {
        assert(sizes@.subrange(0, i + 1).drop_last() =~= sizes@.subrange(0, i as int));
        if sizes[i] > cap - total {
            proof {
                lemma_total_size_prefix_monotone(sizes@, i + 1);
            }
            return true;
        }
        total = total + sizes[i];
        i = i + 1;
    }
    assert(sizes@.subrange(0, i as int) =~= sizes@);
    false
}

proof fn lemma_total_size_prefix_monotone(s: Seq<u64>, n: int)
    requires
        0 <= n <= s.len(),
    ensures
        total_size(s.subrange(0, n)) <= total_size(s),
    decreases s.len() - n,
{
    if n < s.len() {
        lemma_total_size_prefix_monotone(s, n + 1);
        assert(s.subrange(0, n + 1).drop_last() =~= s.subrange(0, n));
    } else {
        assert(s.subrange(0, n) =~= s);
    }
}

/// Whether the bot answers a message: never its own messages, and otherwise
/// only direct messages or messages that mention it.
pub fn should_respond(author: u64, bot: u64, direct: bool, mentions: &Vec<u64>) -> (r: bool)
    ensures
        r == (author != bot && (direct || mentions@.contains(bot))),
{
    if author == bot {
        return false;
    }
    if direct {
        return true;
    }
    let mut i: usize = 0;
    while i < mentions.len()
        invariant
            author != bot,
            i <= mentions@.len(),
            forall|k: int| 0 <= k < i ==> mentions@[k] != bot,
        decreases mentions@.len() - i,
    {
        if mentions[i] == bot {
            assert(mentions@[i as int] == bot);
            return true;
        }
        i = i + 1;
    }
    false
}

/// The user name handed to the engine: none when the transport reports the
/// sender's address as its display name, the display name otherwise.
pub fn user_name(address: &str, display_name: &str) -> (r: Option<String>)
    ensures
        r matches Some(n) ==> n@ == display_name@,
        r is None <==> address@ == display_name@,
{
    let a = address.unicode_len();
    let same = a == display_name.unicode_len() && same_chars(address, display_name);
    if same {
        assert(address@ =~= display_name@);
        None
    } else {
        Some(String::from_str(display_name))
    }
}

fn same_chars(a: &str, b: &str) -> (r: bool)
    requires
        a@.len() == b@.len(),
    ensures
        r == (a@ == b@),
{
    let n = a.unicode_len();
    let mut i: usize = 0;
    while i < n
        invariant
            n == a@.len() == b@.len(),
            i <= n,
            forall|k: int| 0 <= k < i ==> a@[k] == b@[k],
        decreases n - i,
    {
        if a.get_char(i) != b.get_char(i) {
            return false;
        }
        i = i + 1;
    }
    assert(a@ =~= b@);
    true
}

} // verus!

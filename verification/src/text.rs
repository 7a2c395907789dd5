//! Path text: separators, trimming and the canonical form of a mounted path.
//!
//! Every function here is stated over the characters of its arguments, so the
//! contracts read the same for `&str` and `String`.

use vstd::prelude::*;
use vstd::string::*;

verus! {

/// The character that separates the segments of a path.
pub open spec fn is_separator(c: char) -> bool {
    c == '/'
}

/// How many separators stand at the front of `s`.
pub open spec fn leading_separators(s: Seq<char>) -> nat
    decreases s.len(),
{
    if s.len() > 0 && is_separator(s[0]) {
        1 + leading_separators(s.drop_first())
    } else {
        0
    }
}

/// How many separators stand at the end of `s`.
pub open spec fn trailing_separators(s: Seq<char>) -> nat
    decreases s.len(),
{
    if s.len() > 0 && is_separator(s.last()) {
        1 + trailing_separators(s.drop_last())
    } else {
        0
    }
}

/// `s` without the separators at its front.
pub open spec fn without_leading(s: Seq<char>) -> Seq<char> {
    s.skip(leading_separators(s) as int)
}

/// `s` without the separators at its front and at its end.
pub open spec fn trimmed(s: Seq<char>) -> Seq<char> {
    let rest = without_leading(s);
    rest.take(rest.len() - trailing_separators(rest))
}

/// `s` with every separator replaced by a dash.
pub open spec fn dashed(s: Seq<char>) -> Seq<char> {
    s.map_values(|c: char| if is_separator(c) { '-' } else { c })
}

/// `s` with exactly one separator at its front.
pub open spec fn normalized(s: Seq<char>) -> Seq<char> {
    seq!['/'] + without_leading(s)
}

/// `s` without the separators that no segment follows: a separator stays only
/// where the next character exists and is no separator.
pub open spec fn squeezed(s: Seq<char>) -> Seq<char>
    decreases s.len(),
{
    if s.len() == 0 {
        s
    } else if is_separator(s[0]) && (s.len() == 1 || is_separator(s[1])) {
        squeezed(s.drop_first())
    } else {
        seq![s[0]] + squeezed(s.drop_first())
    }
}

/// The canonical form of a path: one separator in front of each segment, and
/// the lone separator where there is no segment.
pub open spec fn canonical(s: Seq<char>) -> Seq<char> {
    let body = squeezed(s);
    if body.len() > 0 && is_separator(body[0]) {
        body
    } else {
        seq!['/'] + body
    }
}

/// The path of a route whose sub-path `sub` is mounted under `mount`.
pub open spec fn joined(mount: Seq<char>, sub: Seq<char>) -> Seq<char> {
    canonical(mount + seq!['/'] + sub)
}

/// Every separator of `s` is followed by a character that is none.
pub open spec fn separators_lead_segments(s: Seq<char>) -> bool {
    forall|i: int|
        0 <= i < s.len() && is_separator(#[trigger] s[i]) ==> i + 1 < s.len() && !is_separator(
            s[i + 1],
        )
}

/// Whether two texts hold the same characters.
pub fn same_text(a: &str, b: &str) -> (r: bool)
    ensures
        r == (a@ == b@),
{
    let len: usize = a.unicode_len();
    if len != b.unicode_len() {
        return false;
    }
    let mut i: usize = 0;
    while i < len
        invariant
            len == a@.len(),
            len == b@.len(),
            i <= len,
            forall|j: int| 0 <= j < i ==> a@[j] == b@[j],
        decreases len - i,
    {
        if a.get_char(i) != b.get_char(i) {
            return false;
        }
        i = i + 1;
    }
    assert(a@ =~= b@);
    true
}

/// Counts the separators at the front of `s`.
pub fn count_leading_separators(s: &str) -> (n: usize)
    ensures
        n == leading_separators(s@),
        n <= s@.len(),
{
    let len: usize = s.unicode_len();
    let mut i: usize = 0;
    assert(s@.skip(0) == s@);
    while i < len && s.get_char(i) == '/'
        invariant
            len == s@.len(),
            i <= len,
            leading_separators(s@) == i + leading_separators(s@.skip(i as int)),
        decreases len - i,
    {
        assert(s@.skip(i as int).drop_first() == s@.skip(i + 1));
        i = i + 1;
    }
    i
}

/// Counts the separators at the end of `s`.
pub fn count_trailing_separators(s: &str) -> (n: usize)
    ensures
        n == trailing_separators(s@),
        n <= s@.len(),
{
    let len: usize = s.unicode_len();
    let mut i: usize = 0;
    assert(s@.take(len as int) == s@);
    while i < len && s.get_char(len - 1 - i) == '/'
        invariant
            len == s@.len(),
            i <= len,
            trailing_separators(s@) == i + trailing_separators(s@.take(len - i)),
        decreases len - i,
    {
        assert(s@.take(len - i).drop_last() == s@.take(len - i - 1));
        i = i + 1;
    }
    i
}

/// Strips the separators from both ends of `s`.
pub fn trim_separators(s: &str) -> (r: &str)
    ensures
        r@ == trimmed(s@),
{
    let len: usize = s.unicode_len();
    let lead: usize = count_leading_separators(s);
    let rest: &str = s.substring_char(lead, len);
    let trail: usize = count_trailing_separators(rest);
    rest.substring_char(0, len - lead - trail)
}

/// Replaces every separator of `s` by a dash.
pub fn dash_separators(s: &str) -> (r: String)
    ensures
        r@ == dashed(s@),
{
    let len: usize = s.unicode_len();
    let mut out: String = String::new();
    let mut i: usize = 0;
    while i < len
        invariant
            len == s@.len(),
            i <= len,
            out@ == dashed(s@.take(i as int)),
        decreases len - i,
    {
        if s.get_char(i) == '/' {
            proof {
                reveal_strlit("-");
            }
            assert("-"@ =~= seq!['-']);
            out.append("-");
        } else {
            out.append(s.substring_char(i, i + 1));
        }
        assert(s@.take(i + 1) == s@.take(i as int).push(s@[i as int]));
        assert(out@ =~= dashed(s@.take(i + 1)));
        i = i + 1;
    }
    assert(s@.take(len as int) == s@);
    out
}

/// Gives `path` exactly one separator at its front.
pub fn normalize_path(path: &str) -> (r: String)
    ensures
        r@ == normalized(path@),
{
    let len: usize = path.unicode_len();
    let lead: usize = count_leading_separators(path);
    proof {
        reveal_strlit("/");
    }
    assert("/"@ =~= seq!['/']);
    String::from_str("/").concat(path.substring_char(lead, len))
}

/// Drops from `s` every separator that no segment follows.
pub fn squeeze(s: &str) -> (r: String)
    ensures
        r@ == squeezed(s@),
{
    let len: usize = s.unicode_len();
    let mut out: String = String::new();
    let mut i: usize = 0;
    assert(s@.skip(0) == s@);
    while i < len
        invariant
            len == s@.len(),
            i <= len,
            squeezed(s@) == out@ + squeezed(s@.skip(i as int)),
        decreases len - i,
    {
        let ghost rest = s@.skip(i as int);
        assert(rest.drop_first() == s@.skip(i + 1));
        assert(rest[0] == s@[i as int]);
        let dropped: bool = s.get_char(i) == '/' && (i + 1 == len || s.get_char(i + 1) == '/');
        assert(i + 1 < len ==> rest[1] == s@[i + 1]);
        if !dropped {
            out.append(s.substring_char(i, i + 1));
            assert(s@.subrange(i as int, i + 1) =~= seq![s@[i as int]]);
            assert(squeezed(s@) =~= out@ + squeezed(s@.skip(i + 1)));
        }
        i = i + 1;
    }
    assert(squeezed(s@.skip(len as int)) =~= Seq::<char>::empty());
    assert(out@ + Seq::<char>::empty() =~= out@);
    out
}

/// Brings `path` into canonical form.
pub fn canonical_path(path: &str) -> (r: String)
    ensures
        r@ == canonical(path@),
{
    let body: String = squeeze(path);
    if body.as_str().unicode_len() > 0 && body.as_str().get_char(0) == '/' {
        body
    } else {
        proof {
            reveal_strlit("/");
        }
        assert("/"@ =~= seq!['/']);
        String::from_str("/").concat(body.as_str())
    }
}

/// Mounts the sub-path `sub` under `mount`: the segments of both, in order,
/// each behind one separator.
pub fn join_paths(mount: &str, sub: &str) -> (r: String)
    ensures
        r@ == joined(mount@, sub@),
{
    proof {
        reveal_strlit("/");
    }
    assert("/"@ =~= seq!['/']);
    let mut whole: String = String::from_str(mount);
    whole.append("/");
    whole.append(sub);
    canonical_path(whole.as_str())
}

/// A text made of separators alone.
pub open spec fn all_separators(s: Seq<char>) -> bool {
    forall|i: int| 0 <= i < s.len() ==> is_separator(#[trigger] s[i])
}

/// What is left of a text after squeezing starts with the text's first
/// character, where that character is no separator.
proof fn lemma_squeezed_head(s: Seq<char>)
    requires
        s.len() > 0,
        !is_separator(s[0]),
    ensures
        squeezed(s).len() > 0,
        squeezed(s)[0] == s[0],
{
}

/// After squeezing, a segment follows every separator: no separator is
/// doubled and none ends the text.
pub proof fn lemma_squeezed_separators(s: Seq<char>)
    ensures
        separators_lead_segments(squeezed(s)),
    decreases s.len(),
{
    if s.len() > 0 {
        let rest = s.drop_first();
        lemma_squeezed_separators(rest);
        if !(is_separator(s[0]) && (s.len() == 1 || is_separator(s[1]))) {
            let out = seq![s[0]] + squeezed(rest);
            if is_separator(s[0]) {
                assert(rest[0] == s[1]);
                lemma_squeezed_head(rest);
            }
            assert forall|i: int| 0 <= i < out.len() && is_separator(#[trigger] out[i]) implies i
                + 1 < out.len() && !is_separator(out[i + 1]) by {
                if i > 0 {
                    assert(out[i] == squeezed(rest)[i - 1]);
                    assert(out[i + 1] == squeezed(rest)[i]);
                }
            }
        }
    }
}

/// A separator that stands before another separator leaves no trace in the
/// squeezed text.
proof fn lemma_squeezed_drops_doubled(a: Seq<char>, b: Seq<char>)
    requires
        b.len() > 0,
        is_separator(b[0]),
    ensures
        squeezed(a + seq!['/'] + b) == squeezed(a + b),
    decreases a.len(),
{
    let long = a + seq!['/'] + b;
    let short = a + b;
    if a.len() == 0 {
        assert(long.drop_first() =~= b);
        assert(short =~= b);
        assert(long[1] == b[0]);
    } else {
        let a1 = a.drop_first();
        lemma_squeezed_drops_doubled(a1, b);
        assert(long.drop_first() =~= a1 + seq!['/'] + b);
        assert(short.drop_first() =~= a1 + b);
        assert(long[0] == short[0]);
        if a.len() == 1 {
            assert(long[1] == '/');
            assert(short[1] == b[0]);
        } else {
            assert(long[1] == a[1]);
            assert(short[1] == a[1]);
        }
    }
}

/// Separators added in front of a separator leave the squeezed text as it was.
proof fn lemma_squeezed_ignores_run(a: Seq<char>, extra: Seq<char>, b: Seq<char>)
    requires
        all_separators(extra),
        b.len() > 0,
        is_separator(b[0]),
    ensures
        squeezed(a + extra + b) == squeezed(a + b),
    decreases extra.len(),
{
    if extra.len() == 0 {
        assert(a + extra + b =~= a + b);
    } else {
        let rest = extra.drop_first();
        assert(extra[0] == '/');
        assert(all_separators(rest)) by {
            assert forall|i: int| 0 <= i < rest.len() implies is_separator(#[trigger] rest[i]) by {
                assert(rest[i] == extra[i + 1]);
            }
        }
        let tail = rest + b;
        assert(tail[0] == if rest.len() > 0 {
            rest[0]
        } else {
            b[0]
        });
        if rest.len() > 0 {
            assert(is_separator(rest[0]));
        }
        lemma_squeezed_drops_doubled(a, tail);
        assert(a + seq!['/'] + tail =~= a + extra + b);
        assert(a + tail =~= a + rest + b);
        lemma_squeezed_ignores_run(a, rest, b);
    }
}

/// The path of a mounted route starts with a separator; it is either the lone
/// separator or a text in which a segment follows every separator, so that no
/// separator is doubled and none ends the path.
pub proof fn law_joined_single_separators(mount: Seq<char>, sub: Seq<char>)
    ensures
        joined(mount, sub).len() > 0,
        is_separator(joined(mount, sub)[0]),
        joined(mount, sub) == seq!['/'] || separators_lead_segments(joined(mount, sub)),
{
    let whole = mount + seq!['/'] + sub;
    lemma_squeezed_separators(whole);
    let body = squeezed(whole);
    if !(body.len() > 0 && is_separator(body[0])) {
        let out = seq!['/'] + body;
        if body.len() == 0 {
            assert(out =~= seq!['/']);
        } else {
            assert forall|i: int| 0 <= i < out.len() && is_separator(#[trigger] out[i]) implies i
                + 1 < out.len() && !is_separator(out[i + 1]) by {
                if i > 0 {
                    assert(out[i] == body[i - 1]);
                    assert(out[i + 1] == body[i]);
                } else {
                    assert(out[1] == body[0]);
                }
            }
        }
    }
}

/// Separators at the end of the mount path, or at the front of the sub-path,
/// do not change the path of the mounted route.
pub proof fn law_joined_ignores_extra_separators(
    mount: Seq<char>,
    sub: Seq<char>,
    extra: Seq<char>,
)
    requires
        all_separators(extra),
    ensures
        joined(mount + extra, sub) == joined(mount, sub),
        joined(mount, extra + sub) == joined(mount, sub),
{
    let tail = seq!['/'] + sub;
    lemma_squeezed_ignores_run(mount, extra, tail);
    assert(mount + extra + tail =~= (mount + extra) + seq!['/'] + sub);
    assert(mount + tail =~= mount + seq!['/'] + sub);
    if extra.len() > 0 {
        let front = extra.drop_last();
        let back = extra + sub;
        assert(extra.last() == '/');
        assert(all_separators(front));
        assert(front + seq!['/'] =~= extra);
        assert(back[0] == extra[0]);
        lemma_squeezed_ignores_run(mount, front, tail);
        lemma_squeezed_drops_doubled(mount, back);
        assert(mount + front + tail =~= mount + back);
        assert(mount + seq!['/'] + back =~= mount + seq!['/'] + (extra + sub));
    } else {
        assert(extra + sub =~= sub);
    }
}

/// The characters of `s` that are no separators, in order.
pub open spec fn without_separators(s: Seq<char>) -> Seq<char> {
    s.filter(|c: char| !is_separator(c))
}

/// Squeezing takes away separators and nothing else.
proof fn lemma_squeezed_keeps_segments(s: Seq<char>)
    ensures
        without_separators(squeezed(s)) == without_separators(s),
    decreases s.len(),
{
    let keep = |c: char| !is_separator(c);
    if s.len() > 0 {
        let rest = s.drop_first();
        lemma_squeezed_keeps_segments(rest);
        assert(seq![s[0]] + rest =~= s);
        Seq::filter_distributes_over_add(seq![s[0]], rest, keep);
        Seq::filter_distributes_over_add(seq![s[0]], squeezed(rest), keep);
        lemma_single_filter(s[0]);
        if is_separator(s[0]) {
            assert(Seq::<char>::empty() + without_separators(rest) =~= without_separators(rest));
            assert(Seq::<char>::empty() + without_separators(squeezed(rest))
                =~= without_separators(squeezed(rest)));
        }
    }
}

/// A text of one character keeps it or loses it.
proof fn lemma_single_filter(c: char)
    ensures
        without_separators(seq![c]) == if is_separator(c) {
            Seq::<char>::empty()
        } else {
            seq![c]
        },
{
    let keep = |c: char| !is_separator(c);
    let one = seq![c];
    reveal(Seq::filter);
    assert(one.drop_last() =~= Seq::<char>::empty());
    assert(one.last() == c);
    assert(Seq::<char>::empty().filter(keep) =~= Seq::<char>::empty());
    assert(Seq::<char>::empty().push(c) =~= seq![c]);
}

/// The path of a mounted route holds the characters of the mount path and
/// then those of the sub-path, in order, apart from separators: joining
/// neither drops, adds nor moves anything else.
pub proof fn law_joined_keeps_segments(mount: Seq<char>, sub: Seq<char>)
    ensures
        without_separators(joined(mount, sub)) == without_separators(mount) + without_separators(
            sub,
        ),
{
    let keep = |c: char| !is_separator(c);
    let whole = mount + seq!['/'] + sub;
    lemma_squeezed_keeps_segments(whole);
    lemma_single_filter('/');
    Seq::filter_distributes_over_add(mount + seq!['/'], sub, keep);
    Seq::filter_distributes_over_add(mount, seq!['/'], keep);
    assert(without_separators(mount) + Seq::<char>::empty() =~= without_separators(mount));
    let body = squeezed(whole);
    if !(body.len() > 0 && is_separator(body[0])) {
        Seq::filter_distributes_over_add(seq!['/'], body, keep);
        assert(Seq::<char>::empty() + without_separators(body) =~= without_separators(body));
    }
}

/// A normalised path starts with exactly one separator.
pub proof fn law_normalized_one_leading(s: Seq<char>)
    ensures
        normalized(s).len() > 0,
        is_separator(normalized(s)[0]),
        normalized(s).len() > 1 ==> !is_separator(normalized(s)[1]),
        leading_separators(normalized(s)) == 1,
    decreases s.len(),
{
    lemma_without_leading_head(s);
    let rest = without_leading(s);
    assert(normalized(s).drop_first() =~= rest);
    if rest.len() > 0 {
        assert(normalized(s)[1] == rest[0]);
    }
}

/// What stays after the leading separators are gone does not start with one.
proof fn lemma_without_leading_head(s: Seq<char>)
    ensures
        leading_separators(s) <= s.len(),
        without_leading(s).len() > 0 ==> !is_separator(without_leading(s)[0]),
        leading_separators(without_leading(s)) == 0,
    decreases s.len(),
{
    if s.len() > 0 && is_separator(s[0]) {
        lemma_without_leading_head(s.drop_first());
        assert(s.drop_first().skip(leading_separators(s.drop_first()) as int) =~= s.skip(
            leading_separators(s) as int,
        ));
    } else {
        assert(s.skip(0) =~= s);
    }
}

/// Normalising a path that is already in canonical form changes nothing.
pub proof fn law_normalized_keeps_canonical(s: Seq<char>)
    ensures
        normalized(canonical(s)) == canonical(s),
{
    let c = canonical(s);
    lemma_squeezed_separators(s);
    let body = squeezed(s);
    assert(is_separator(c[0]));
    if c.len() > 1 {
        if body.len() > 0 && is_separator(body[0]) {
            assert(!is_separator(body[1]));
        } else {
            assert(c[1] == body[0]);
        }
        assert(!is_separator(c[1]));
        assert(c.drop_first()[0] == c[1]);
        assert(leading_separators(c.drop_first()) == 0);
    } else {
        assert(c.drop_first().len() == 0);
    }
    assert(c.len() > 0);
    assert(leading_separators(c.drop_first()) == 0);
    assert(leading_separators(c) == 1 + leading_separators(c.drop_first()));
    assert(seq!['/'] + c.skip(1) =~= c);
}

} // verus!

//! Escaping text for HTML.
use vstd::prelude::*;
use vstd::string::StringExecFns;

verus! {

/// What stands for `c` in HTML text.
pub open spec fn escape_char(c: char) -> Seq<char> {
    if c == '&' {
        "&amp;"@
    } else if c == '<' {
        "&lt;"@
    } else if c == '>' {
        "&gt;"@
    } else {
        seq![c]
    }
}

/// `s` with each character replaced by what stands for it in HTML text.
pub open spec fn escaped(s: Seq<char>) -> Seq<char>
    decreases s.len(),
{
    if s.len() == 0 {
        Seq::empty()
    } else {
        escaped(s.drop_last()) + escape_char(s.last())
    }
}

/// Escapes `s` for HTML: `&`, `<` and `>` become entities.
pub fn html_escape(s: &str) -> (out: String)
    ensures
        out@ == escaped(s@),
{
    let mut out: String = String::new();
    for c in it: s.chars()
        invariant
            it.seq() == s@,
            out@ == escaped(s@.take(it.index() as int)),
    {
        if c == '&' {
            out.append("&amp;");
        } else if c == '<' {
            out.append("&lt;");
        } else if c == '>' {
            out.append("&gt;");
        } else {
            out.push(c);
        }
        proof {
            let now = s@.take(it.index() + 1);
            assert(now.drop_last() =~= s@.take(it.index() as int));
            assert(now.last() == c);
            assert(out@ =~= escaped(now));
        }
    }
    proof {
        assert(s@.take(s@.len() as int) =~= s@);
    }
    out
}

/// Escaping goes part by part.
pub proof fn law_escape_concat(a: Seq<char>, b: Seq<char>)
    ensures
        escaped(a + b) == escaped(a) + escaped(b),
    decreases b.len(),
{
    if b.len() == 0 {
        assert(a + b =~= a);
        assert(escaped(a) + escaped(b) =~= escaped(a));
    } else {
        assert((a + b).drop_last() =~= a + b.drop_last());
        law_escape_concat(a, b.drop_last());
        assert(escaped(a + b) =~= escaped(a) + escaped(b));
    }
}

/// Each character is escaped on its own: the three special ones become entities, and any
/// other stays.
pub proof fn law_escape_one_character(c: char)
    ensures
        escaped(Seq::empty()) == Seq::<char>::empty(),
        escaped(seq![c]) == (if c == '&' {
            "&amp;"@
        } else if c == '<' {
            "&lt;"@
        } else if c == '>' {
            "&gt;"@
        } else {
            seq![c]
        }),
{
    assert(escaped(seq![c].drop_last()) =~= Seq::<char>::empty());
    assert(escaped(seq![c]) =~= escape_char(c));
}

/// Text without the three characters is left as it is.
pub proof fn law_escape_plain_text(s: Seq<char>)
    requires
        forall|i: int| 0 <= i < s.len() ==> s[i] != '&' && s[i] != '<' && s[i] != '>',
    ensures
        escaped(s) == s,
    decreases s.len(),
{
    if s.len() > 0 {
        law_escape_plain_text(s.drop_last());
        assert(escaped(s) =~= s);
    }
}

/// Escaped text holds no markup: neither angle bracket occurs in it, and every `&`
/// begins one of the three entities.
pub proof fn law_escaped_is_inert(s: Seq<char>, i: int)
    requires
        0 <= i < escaped(s).len(),
    ensures
        escaped(s)[i] != '<',
        escaped(s)[i] != '>',
        escaped(s)[i] == '&' ==> crate::text::occurs_at(escaped(s), i, "&amp;"@)
            || crate::text::occurs_at(escaped(s), i, "&lt;"@) || crate::text::occurs_at(
            escaped(s),
            i,
            "&gt;"@,
        ),
    decreases s.len(),
{
    reveal_strlit("&amp;");
    reveal_strlit("&lt;");
    reveal_strlit("&gt;");
    let front = escaped(s.drop_last());
    let tail = escape_char(s.last());
    if i < front.len() {
        law_escaped_is_inert(s.drop_last(), i);
        if front[i] == '&' {
            let n: int = if crate::text::occurs_at(front, i, "&amp;"@) {
                5
            } else {
                4
            };
            assert(front.subrange(i, i + n) =~= escaped(s).subrange(i, i + n));
        }
    } else {
        assert(escaped(s)[i] == tail[i - front.len()]);
        if escaped(s)[i] == '&' {
            assert(i == front.len());
            assert(escaped(s).subrange(i, i + tail.len()) =~= tail);
        }
    }
}

/// Escaping loses nothing: different texts are escaped differently.
pub proof fn law_escape_injective(a: Seq<char>, b: Seq<char>)
    requires
        escaped(a) == escaped(b),
    ensures
        a == b,
    decreases a.len(),
{
    reveal_strlit("&amp;");
    reveal_strlit("&lt;");
    reveal_strlit("&gt;");
    lemma_escape_head(a);
    lemma_escape_head(b);
    if a.len() > 0 && b.len() > 0 {
        let ea = escape_char(a[0]);
        let eb = escape_char(b[0]);
        let ra = escaped(a.skip(1));
        let rb = escaped(b.skip(1));
        assert(ea + ra == eb + rb);
        assert((ea + ra)[0] == ea[0]);
        assert((eb + rb)[0] == eb[0]);
        if ea[0] == '&' {
            assert((ea + ra)[1] == ea[1]);
            assert((eb + rb)[1] == eb[1]);
        }
        assert(a[0] == b[0]);
        assert(ra =~= (ea + ra).skip(ea.len() as int));
        assert(rb =~= (eb + rb).skip(eb.len() as int));
        law_escape_injective(a.skip(1), b.skip(1));
        assert(a =~= seq![a[0]] + a.skip(1));
        assert(b =~= seq![b[0]] + b.skip(1));
    } else if a.len() > 0 {
        assert(escaped(a).len() > 0);
    } else if b.len() > 0 {
        assert(escaped(b).len() > 0);
    } else {
        assert(a =~= b);
    }
}

/// Escaping may also be done from the front.
proof fn lemma_escape_head(s: Seq<char>)
    ensures
        s.len() > 0 ==> escaped(s) == escape_char(s[0]) + escaped(s.skip(1)),
        s.len() > 0 ==> escaped(s).len() > 0,
{
    if s.len() > 0 {
        reveal_strlit("&amp;");
        reveal_strlit("&lt;");
        reveal_strlit("&gt;");
        let head = seq![s[0]];
        assert(escaped(head.drop_last()) =~= Seq::<char>::empty());
        assert(escaped(head) =~= escape_char(s[0]));
        law_escape_concat(head, s.skip(1));
        assert(head + s.skip(1) =~= s);
    }
}

/// Replacing one character goes part by part.
proof fn lemma_replace_char_concat(c: char, to: Seq<char>, a: Seq<char>, b: Seq<char>)
    ensures
        crate::text::replace_all(a + b, seq![c], to) == crate::text::replace_all(a, seq![c], to)
            + crate::text::replace_all(b, seq![c], to),
    decreases a.len(),
{
    let from = seq![c];
    if a.len() == 0 {
        assert(a + b =~= b);
        assert(crate::text::replace_all(a, from, to) + crate::text::replace_all(b, from, to)
            =~= crate::text::replace_all(b, from, to));
    } else {
        lemma_replace_char_concat(c, to, a.skip(1), b);
        assert((a + b).skip(1) =~= a.skip(1) + b);
        assert((a + b).subrange(0, 1) =~= a.subrange(0, 1));
        assert(crate::text::replace_all(a + b, from, to) =~= crate::text::replace_all(a, from, to)
            + crate::text::replace_all(b, from, to));
    }
}

/// Replacing one character leaves text without it as it is, and replaces a text that
/// consists of it.
proof fn lemma_replace_char(c: char, to: Seq<char>, s: Seq<char>)
    ensures
        (forall|i: int| 0 <= i < s.len() ==> s[i] != c) ==> crate::text::replace_all(
            s,
            seq![c],
            to,
        ) == s,
        s == seq![c] ==> crate::text::replace_all(s, seq![c], to) == to,
{
    let from = seq![c];
    if forall|i: int| 0 <= i < s.len() ==> s[i] != c {
        assert forall|i: int| !crate::text::occurs_at(s, i, from) by {
            if crate::text::occurs_at(s, i, from) {
                assert(s.subrange(i, i + 1)[0] == s[i]);
            }
        }
        crate::text::law_replace_without_occurrence(s, from, to);
    }
    if s == from {
        assert(s.subrange(0, 1) =~= s);
        assert(crate::text::replace_all(s.skip(1), from, to) =~= Seq::<char>::empty());
        assert(crate::text::replace_all(s, from, to) =~= to);
    }
}

/// The three replacements one after the other, `&` first.
pub open spec fn replaced_in_turn(s: Seq<char>) -> Seq<char> {
    crate::text::replace_all(
        crate::text::replace_all(
            crate::text::replace_all(s, seq!['&'], "&amp;"@),
            seq!['<'],
            "&lt;"@,
        ),
        seq!['>'],
        "&gt;"@,
    )
}

/// Escaping in one pass is the same as replacing `&`, then `<`, then `>`.
pub proof fn law_escape_is_replacement(s: Seq<char>)
    ensures
        escaped(s) == replaced_in_turn(s),
    decreases s.len(),
{
    reveal_strlit("&amp;");
    reveal_strlit("&lt;");
    reveal_strlit("&gt;");
    let amp = "&amp;"@;
    let lt = "&lt;"@;
    let gt = "&gt;"@;
    if s.len() == 0 {
        assert(s =~= Seq::<char>::empty());
    } else {
        let front = s.drop_last();
        let last = seq![s.last()];
        law_escape_is_replacement(front);
        assert(front + last =~= s);
        let f1 = crate::text::replace_all(front, seq!['&'], amp);
        let l1 = crate::text::replace_all(last, seq!['&'], amp);
        lemma_replace_char_concat('&', amp, front, last);
        let f2 = crate::text::replace_all(f1, seq!['<'], lt);
        let l2 = crate::text::replace_all(l1, seq!['<'], lt);
        lemma_replace_char_concat('<', lt, f1, l1);
        lemma_replace_char_concat('>', gt, f2, l2);
        lemma_replace_char('&', amp, last);
        lemma_replace_char('<', lt, l1);
        lemma_replace_char('>', gt, l2);
        assert(crate::text::replace_all(l2, seq!['>'], gt) == escape_char(s.last()));
    }
}

} // verus!

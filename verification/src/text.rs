//! Text building blocks: decimal numbers, joining, and replacing.
use vstd::prelude::*;
use vstd::string::StringExecFns;

verus! {

/// `String::push` appends one character to the end of the string.
pub assume_specification[ String::push ](s: &mut String, c: char)
    ensures
        final(s)@ == old(s)@.push(c),
;

/// The decimal notation of `n`, without leading zeros.
pub open spec fn decimal(n: nat) -> Seq<char>
    decreases n,
{
    if n < 10 {
        seq![digit(n)]
    } else {
        decimal(n / 10).push(digit(n % 10))
    }
}

/// The character of a decimal digit.
pub open spec fn digit(d: nat) -> char {
    (48 + d) as char
}

/// Appends the decimal notation of `n`.
pub fn push_decimal(out: &mut String, n: u32)
    ensures
        final(out)@ == old(out)@ + decimal(n as nat),
        final(out)@.len() > old(out)@.len(),
        final(out)@.take(old(out)@.len() as int) == old(out)@,
        number(final(out)@.skip(old(out)@.len() as int)) == n,
        forall|i: int|
            old(out)@.len() <= i < final(out)@.len() ==> '0' <= #[trigger] final(out)@[i] <= '9',
        final(out)@[old(out)@.len() as int] == '0' ==> n == 0 && final(out)@.len()
            == old(out)@.len() + 1,
    decreases n,
{
    if n >= 10 {
        push_decimal(out, n / 10);
    }
    let d: u8 = 48 + (n % 10) as u8;
    out.push(d as char);
    proof {
        assert(out@ =~= old(out)@ + decimal(n as nat));
        law_decimal_reads_back(n as nat);
        assert(out@.take(old(out)@.len() as int) =~= old(out)@);
        assert(out@.skip(old(out)@.len() as int) =~= decimal(n as nat));
        assert forall|i: int| old(out)@.len() <= i < out@.len() implies '0' <= #[trigger] out@[i]
            <= '9' by {
            assert(out@[i] == decimal(n as nat)[i - old(out)@.len()]);
        }
    }
}

/// The number that decimal digits denote.
pub open spec fn number(digits: Seq<char>) -> int
    decreases digits.len(),
{
    if digits.len() == 0 {
        0
    } else {
        10 * number(digits.drop_last()) + (digits.last() as int - 48)
    }
}

/// Reading digits is positional: a further digit counts ten times what stands before it
/// plus its own value.
pub proof fn law_number_is_positional(digits: Seq<char>, c: char)
    ensures
        number(Seq::empty()) == 0,
        number(digits.push(c)) == 10 * number(digits) + (c as int - '0' as int),
{
    assert(digits.push(c).drop_last() =~= digits);
}

/// The decimal notation of a number consists of digits, denotes that number and has no
/// leading zero.
pub proof fn law_decimal_reads_back(n: nat)
    ensures
        number(decimal(n)) == n,
        decimal(n).len() > 0,
        forall|i: int| 0 <= i < decimal(n).len() ==> '0' <= #[trigger] decimal(n)[i] <= '9',
        decimal(n)[0] == '0' ==> n == 0 && decimal(n).len() == 1,
    decreases n,
{
    if n < 10 {
        assert(number(decimal(n).drop_last()) == 0);
    } else {
        law_decimal_reads_back(n / 10);
        assert(decimal(n).drop_last() =~= decimal(n / 10));
    }
}

/// The characters of `text`.
pub fn characters(text: &str) -> (chars: Vec<char>)
    ensures
        chars@ == text@,
{
    let mut chars: Vec<char> = Vec::new();
    for c in it: text.chars()
        invariant
            it.seq() == text@,
            chars@ == text@.take(it.index() as int),
    {
        chars.push(c);
        proof {
            assert(chars@ =~= text@.take(it.index() + 1));
        }
    }
    proof {
        assert(text@.take(text@.len() as int) =~= text@);
    }
    chars
}

/// `text` stands in `s` at position `i`.
pub open spec fn occurs_at(s: Seq<char>, i: int, text: Seq<char>) -> bool {
    0 <= i && i + text.len() <= s.len() && s.subrange(i, i + text.len()) == text
}

/// A text stands where the text around it is cut away.
pub proof fn law_occurrence(s: Seq<char>, i: int, text: Seq<char>)
    ensures
        occurs_at(s, i, text) <==> 0 <= i && i + text.len() <= s.len() && s == s.take(i) + text
            + s.skip(i + text.len()),
{
    if 0 <= i && i + text.len() <= s.len() {
        let built = s.take(i) + text + s.skip(i + text.len());
        if occurs_at(s, i, text) {
            assert forall|k: int| 0 <= k < s.len() implies s[k] == built[k] by {
                if i <= k < i + text.len() {
                    assert(s.subrange(i, i + text.len())[k - i] == s[k]);
                }
            }
            assert(built =~= s);
        }
        if s == built {
            assert forall|k: int| 0 <= k < text.len() implies s.subrange(i, i + text.len())[k]
                == text[k] by {
                assert(built[i + k] == text[k]);
            }
            assert(s.subrange(i, i + text.len()) =~= text);
        }
    }
}

/// `s` with every occurrence of `from` replaced by `to`. Occurrences are taken from
/// the left and do not overlap; what is put in is not searched again.
pub open spec fn replace_all(s: Seq<char>, from: Seq<char>, to: Seq<char>) -> Seq<char>
    decreases s.len(),
{
    if from.len() == 0 || s.len() < from.len() {
        s
    } else if occurs_at(s, 0, from) {
        to + replace_all(s.skip(from.len() as int), from, to)
    } else {
        seq![s[0]] + replace_all(s.skip(1), from, to)
    }
}

/// Replaces every occurrence of `from` in `text` by `to`.
pub fn replace(text: &str, from: &str, to: &str) -> (out: String)
    requires
        from@.len() > 0,
    ensures
        out@ == replace_all(text@, from@, to@),
{
    let s: Vec<char> = characters(text);
    let pat: Vec<char> = characters(from);
    let mut out: String = String::new();
    let mut i: usize = 0;
    proof {
        assert(s@.skip(0) =~= s@);
    }
    while i < s.len() && pat.len() <= s.len() - i
        invariant
            s@ == text@,
            pat@ == from@,
            pat@.len() > 0,
            i <= s@.len(),
            out@ + replace_all(s@.skip(i as int), from@, to@) =~= replace_all(text@, from@, to@),
        decreases s@.len() - i,
    {
        let ghost rest = s@.skip(i as int);
        if matches_at(&s, i, &pat) {
            proof {
                assert(rest.subrange(0, pat@.len() as int) =~= s@.subrange(
                    i as int,
                    i + pat@.len(),
                ));
                assert(rest.skip(pat@.len() as int) =~= s@.skip(i + pat@.len()));
            }
            out.append(to);
            i = i + pat.len();
        } else {
            proof {
                assert(rest.subrange(0, pat@.len() as int) =~= s@.subrange(
                    i as int,
                    i + pat@.len(),
                ));
                assert(rest.skip(1) =~= s@.skip(i + 1));
            }
            out.push(s[i]);
            i = i + 1;
        }
    }
    let ghost mid = out@;
    let ghost k = i as int;
    while i < s.len()
        invariant
            s@ == text@,
            0 <= k <= i <= s@.len(),
            out@ =~= mid + s@.subrange(k, i as int),
        decreases s@.len() - i,
    {
        out.push(s[i]);
        i = i + 1;
    }
    proof {
        assert(s@.subrange(k, s@.len() as int) =~= s@.skip(k));
    }
    out
}

/// Whether `pat` stands in `s` at position `i`.
fn matches_at(s: &Vec<char>, i: usize, pat: &Vec<char>) -> (found: bool)
    requires
        i + pat@.len() <= s@.len(),
    ensures
        found == occurs_at(s@, i as int, pat@),
{
    let mut k: usize = 0;
    while k < pat.len()
        invariant
            k <= pat@.len(),
            i + pat@.len() <= s.len(),
            s@.subrange(i as int, i + k) =~= pat@.take(k as int),
        decreases pat@.len() - k,
    {
        if s[i + k] != pat[k] {
            proof {
                assert(s@.subrange(i as int, i + pat@.len())[k as int] != pat@[k as int]);
            }
            return false;
        }
        k = k + 1;
    }
    proof {
        assert(pat@.take(k as int) =~= pat@);
    }
    true
}

/// Text in which `from` does not occur is left as it is.
pub proof fn law_replace_without_occurrence(s: Seq<char>, from: Seq<char>, to: Seq<char>)
    requires
        forall|i: int| !occurs_at(s, i, from),
    ensures
        replace_all(s, from, to) == s,
    decreases s.len(),
{
    if from.len() > 0 && s.len() >= from.len() {
        assert(!occurs_at(s, 0, from));
        let rest = s.skip(1);
        assert forall|i: int| !occurs_at(rest, i, from) by {
            if occurs_at(rest, i, from) {
                assert(rest.subrange(i, i + from.len()) =~= s.subrange(i + 1, i + 1 + from.len()));
                assert(occurs_at(s, i + 1, from));
            }
        }
        law_replace_without_occurrence(rest, from, to);
        assert(seq![s[0]] + rest =~= s);
    }
}

/// The first occurrence of `from` is the one that is replaced first.
pub proof fn law_replace_first_occurrence(
    s: Seq<char>,
    i: int,
    from: Seq<char>,
    to: Seq<char>,
)
    requires
        from.len() > 0,
        occurs_at(s, i, from),
        forall|j: int| 0 <= j < i ==> !occurs_at(s, j, from),
    ensures
        replace_all(s, from, to) == s.take(i) + to + replace_all(
            s.skip(i + from.len()),
            from,
            to,
        ),
    decreases s.len(),
{
    if i == 0 {
        assert(s.take(0) + to =~= to);
    } else {
        assert(!occurs_at(s, 0, from));
        let rest = s.skip(1);
        assert forall|j: int| 0 <= j < i - 1 implies !occurs_at(rest, j, from) by {
            if occurs_at(rest, j, from) {
                assert(rest.subrange(j, j + from.len()) =~= s.subrange(j + 1, j + 1 + from.len()));
                assert(occurs_at(s, j + 1, from));
            }
        }
        assert(rest.subrange(i - 1, i - 1 + from.len()) =~= s.subrange(i, i + from.len()));
        law_replace_first_occurrence(rest, i - 1, from, to);
        assert(rest.skip(i - 1 + from.len()) =~= s.skip(i + from.len()));
        assert(seq![s[0]] + rest.take(i - 1) =~= s.take(i));
        assert(replace_all(s, from, to) =~= s.take(i) + to + replace_all(
            s.skip(i + from.len()),
            from,
            to,
        ));
    }
}

/// `parts` one behind the other with `sep` between them.
pub open spec fn join(parts: Seq<Seq<char>>, sep: Seq<char>) -> Seq<char>
    decreases parts.len(),
{
    if parts.len() == 0 {
        Seq::empty()
    } else if parts.len() == 1 {
        parts[0]
    } else {
        join(parts.drop_last(), sep) + sep + parts.last()
    }
}

/// Joining from the front: the first part, then the others.
pub proof fn law_join_from_front(first: Seq<char>, others: Seq<Seq<char>>, sep: Seq<char>)
    ensures
        join(seq![first] + others, sep) == (if others.len() == 0 {
            first
        } else {
            first + sep + join(others, sep)
        }),
    decreases others.len(),
{
    let parts = seq![first] + others;
    if others.len() > 0 {
        assert(parts.drop_last() =~= seq![first] + others.drop_last());
        law_join_from_front(first, others.drop_last(), sep);
        assert(join(parts, sep) =~= first + sep + join(others, sep));
    }
}

/// The texts that strings hold.
pub open spec fn texts(strings: Seq<String>) -> Seq<Seq<char>> {
    strings.map_values(|s: String| s@)
}

/// Each string counts, in its place.
pub proof fn law_texts(strings: Seq<String>, i: int)
    ensures
        texts(strings).len() == strings.len(),
        0 <= i < strings.len() ==> texts(strings)[i] == strings[i]@,
{
}

/// Joining from the back: the parts before, then the last one.
pub proof fn law_join_from_back(others: Seq<Seq<char>>, last: Seq<char>, sep: Seq<char>)
    ensures
        join(Seq::empty(), sep) == Seq::<char>::empty(),
        join(others.push(last), sep) == (if others.len() == 0 {
            last
        } else {
            join(others, sep) + sep + last
        }),
{
    assert(others.push(last).drop_last() =~= others);
}

/// Joins strings with `sep` between them.
pub fn join_strings(parts: &Vec<String>, sep: &str) -> (out: String)
    ensures
        out@ == join(texts(parts@), sep@),
{
    let mut out: String = String::new();
    let mut i: usize = 0;
    while i < parts.len()
        invariant
            i <= parts@.len(),
            out@ == join(texts(parts@).take(i as int), sep@),
        decreases parts@.len() - i,
    {
        if i > 0 {
            out.append(sep);
        }
        out.append(parts[i].as_str());
        proof {
            let now = texts(parts@).take(i + 1);
            assert(now.drop_last() =~= texts(parts@).take(i as int));
            assert(out@ =~= join(now, sep@));
        }
        i = i + 1;
    }
    proof {
        assert(texts(parts@).take(i as int) =~= texts(parts@));
    }
    out
}

} // verus!

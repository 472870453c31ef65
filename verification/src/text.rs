use vstd::prelude::*;

verus! {

/// The lines of `s`, split on the newline character, defined from the
/// back: empty text has one (empty) line, a trailing newline opens a new
/// empty line, and any other character extends the last line.
pub open spec fn split_lines(s: Seq<char>) -> Seq<Seq<char>>
    decreases s.len(),
{
    if s.len() == 0 {
        seq![Seq::<char>::empty()]
    } else {
        let rest = split_lines(s.drop_last());
        if s.last() == '\n' {
            rest.push(Seq::<char>::empty())
        } else {
            rest.update(rest.len() - 1, rest.last().push(s.last()))
        }
    }
}

/// Splitting always yields at least one line.
pub proof fn lemma_split_lines_nonempty(s: Seq<char>)
    ensures
        split_lines(s).len() >= 1,
    decreases s.len(),
{
    if s.len() != 0 {
        lemma_split_lines_nonempty(s.drop_last());
    }
}

/// The first line of a text is never longer than the text itself.
pub proof fn lemma_first_line_len(s: Seq<char>)
    ensures
        split_lines(s).len() >= 1,
        split_lines(s)[0].len() <= s.len(),
    decreases s.len(),
{
    lemma_split_lines_nonempty(s);
    if s.len() != 0 {
        lemma_first_line_len(s.drop_last());
    }
}

/// The greatest length among the inner sequences (0 when there are none).
pub open spec fn max_inner_len<A>(s: Seq<Seq<A>>) -> nat
    decreases s.len(),
{
    if s.len() == 0 {
        0
    } else {
        let rest = max_inner_len(s.drop_last());
        if s.last().len() > rest {
            s.last().len()
        } else {
            rest
        }
    }
}

/// No inner sequence is longer than the maximum.
pub proof fn lemma_max_inner_len_bound<A>(s: Seq<Seq<A>>, i: int)
    requires
        0 <= i < s.len(),
    ensures
        s[i].len() <= max_inner_len(s),
    decreases s.len(),
{
    if i < s.len() - 1 {
        lemma_max_inner_len_bound(s.drop_last(), i);
    }
}

/// `n` copies of the character `c`.
pub open spec fn repeat_char(c: char, n: nat) -> Seq<char> {
    Seq::new(n, |i: int| c)
}

/// A string made of `n` copies of the single character that `unit` spells.
pub fn repeat_string(unit: &str, n: usize) -> (r: String)
    requires
        unit@.len() == 1,
    ensures
        r@ == repeat_char(unit@[0], n as nat),
{
    let mut r = String::new();
    let mut i: usize = 0;
    while i < n
        invariant
            i <= n,
            unit@.len() == 1,
            r@ == repeat_char(unit@[0], i as nat),
        decreases n - i,
    {
        r.append(unit);
        i = i + 1;
        proof {
            assert(r@ =~= repeat_char(unit@[0], i as nat));
        }
    }
    r
}

/// A string of `n` spaces.
pub fn spaces_string(n: usize) -> (r: String)
    ensures
        r@ == repeat_char(' ', n as nat),
{
    proof {
        reveal_strlit(" ");
    }
    let r = repeat_string(" ", n);
    proof {
        assert(r@ =~= repeat_char(' ', n as nat));
    }
    r
}

/// A string of `n` dashes.
pub fn dashes_string(n: usize) -> (r: String)
    ensures
        r@ == repeat_char('-', n as nat),
{
    proof {
        reveal_strlit("-");
    }
    let r = repeat_string("-", n);
    proof {
        assert(r@ =~= repeat_char('-', n as nat));
    }
    r
}

/// Splits `value` on newline characters into owned lines.
pub fn split_value(value: &str) -> (lines: Vec<String>)
    ensures
        lines@.len() == split_lines(value@).len(),
        forall|i: int| 0 <= i < lines@.len() ==> (#[trigger] lines@[i])@ == split_lines(value@)[i],
{
    let n = value.unicode_len();
    let mut lines: Vec<String> = Vec::new();
    let mut start: usize = 0;
    let mut i: usize = 0;
    proof {
        assert(value@.subrange(0, 0) =~= Seq::<char>::empty());
        assert(lines@.map_values(|l: String| l@).push(value@.subrange(0, 0)) =~= seq![
            Seq::<char>::empty(),
        ]);
    }
    while i < n
        invariant
            n == value@.len(),
            start <= i <= n,
            split_lines(value@.subrange(0, i as int)) == lines@.map_values(|l: String| l@).push(
                value@.subrange(start as int, i as int),
            ),
        decreases n - i,
    {
        let ghost prefix = value@.subrange(0, i as int);
        let ghost done = lines@.map_values(|l: String| l@);
        let ghost cur = value@.subrange(start as int, i as int);
        let c = value.get_char(i);
        proof {
            assert(value@.subrange(0, i + 1) =~= prefix.push(value@[i as int]));
            assert(prefix.push(value@[i as int]).drop_last() =~= prefix);
        }
        if c == '\n' {
            let line = value.substring_char(start, i);
            lines.push(String::from_str(line));
            start = i + 1;
            proof {
                assert(lines@.map_values(|l: String| l@) =~= done.push(cur));
                assert(split_lines(value@.subrange(0, i + 1)) == done.push(cur).push(
                    Seq::<char>::empty(),
                ));
                assert(value@.subrange(start as int, i + 1) =~= Seq::<char>::empty());
            }
        } else {
            proof {
                let rest = done.push(cur);
                assert(split_lines(value@.subrange(0, i + 1)) == rest.update(
                    rest.len() - 1,
                    rest.last().push(value@[i as int]),
                ));
                assert(rest.update(rest.len() - 1, cur.push(value@[i as int])) =~= done.push(
                    cur.push(value@[i as int]),
                ));
                assert(value@.subrange(start as int, i + 1) =~= cur.push(value@[i as int]));
            }
        }
        i = i + 1;
    }
    let ghost done = lines@.map_values(|l: String| l@);
    let last = value.substring_char(start, n);
    lines.push(String::from_str(last));
    proof {
        assert(value@.subrange(0, n as int) =~= value@);
        let finished = lines@.map_values(|l: String| l@);
        assert(finished =~= done.push(value@.subrange(start as int, n as int)));
        assert forall|i: int| 0 <= i < lines@.len() implies (#[trigger] lines@[i])@ == split_lines(
            value@,
        )[i] by {
            assert(split_lines(value@)[i] == finished[i]);
        }
    }
    lines
}

} // verus!

use vstd::prelude::*;

verus! {

/// The characters a trim removes: the Unicode whitespace set that
/// char::is_whitespace documents.
pub open spec fn is_space(c: char) -> bool {
    c == ' ' || c == '\t' || c == '\n' || c == '\u{B}' || c == '\u{C}' || c == '\r' || c
        == '\u{85}' || c == '\u{A0}' || c == '\u{1680}' || c == '\u{2000}' || c == '\u{2001}' || c
        == '\u{2002}' || c == '\u{2003}' || c == '\u{2004}' || c == '\u{2005}' || c == '\u{2006}'
        || c == '\u{2007}' || c == '\u{2008}' || c == '\u{2009}' || c == '\u{200A}' || c
        == '\u{2028}' || c == '\u{2029}' || c == '\u{202F}' || c == '\u{205F}' || c == '\u{3000}'
}

/// Whether `c` is one of the characters a trim removes.
fn char_is_space(c: char) -> (r: bool)
    ensures
        r == is_space(c),
{
    c == ' ' || c == '\t' || c == '\n' || c == '\u{B}' || c == '\u{C}' || c == '\r' || c
        == '\u{85}' || c == '\u{A0}' || c == '\u{1680}' || c == '\u{2000}' || c == '\u{2001}' || c
        == '\u{2002}' || c == '\u{2003}' || c == '\u{2004}' || c == '\u{2005}' || c == '\u{2006}'
        || c == '\u{2007}' || c == '\u{2008}' || c == '\u{2009}' || c == '\u{200A}' || c
        == '\u{2028}' || c == '\u{2029}' || c == '\u{202F}' || c == '\u{205F}' || c == '\u{3000}'
}

/// `s` without its leading whitespace.
pub open spec fn trim_front(s: Seq<char>) -> Seq<char>
    decreases s.len(),
{
    if s.len() > 0 && is_space(s[0]) {
        trim_front(s.drop_first())
    } else {
        s
    }
}

/// `s` without its trailing whitespace.
pub open spec fn trim_back(s: Seq<char>) -> Seq<char>
    decreases s.len(),
{
    if s.len() > 0 && is_space(s[s.len() - 1]) {
        trim_back(s.drop_last())
    } else {
        s
    }
}

/// `s` without its leading and trailing whitespace.
pub open spec fn trim_spec(s: Seq<char>) -> Seq<char> {
    trim_back(trim_front(s))
}

/// Strips leading and trailing whitespace from `s`.
pub fn trim_spaces(s: &str) -> (r: String)
    ensures
        r@ == trim_spec(s@),
{
    let n = s.unicode_len();
    let mut start: usize = 0;
    proof {
        assert(s@.skip(0) =~= s@);
    }
    while start < n && char_is_space(s.get_char(start))
        invariant
            start <= n,
            n == s@.len(),
            trim_front(s@) == trim_front(s@.skip(start as int)),
        decreases n - start,
    {
        proof {
            assert(s@.skip(start as int).drop_first() =~= s@.skip(start + 1));
        }
        start += 1;
    }
    proof {
        assert(s@.skip(start as int) =~= s@.subrange(start as int, n as int));
        assert(trim_front(s@) == s@.subrange(start as int, n as int));
    }
    let mut end: usize = n;
    while end > start && char_is_space(s.get_char(end - 1))
        invariant
            start <= end <= n,
            n == s@.len(),
            trim_back(s@.subrange(start as int, n as int)) == trim_back(
                s@.subrange(start as int, end as int),
            ),
        decreases end,
    {
        proof {
            assert(s@.subrange(start as int, end as int).drop_last() =~= s@.subrange(
                start as int,
                end - 1,
            ));
        }
        end -= 1;
    }
    proof {
        assert(trim_back(s@.subrange(start as int, end as int)) == s@.subrange(
            start as int,
            end as int,
        ));
    }
    s.substring_char(start, end).to_owned()
}

/// The cells of `s` split on ',': the text between consecutive commas, in
/// order.  A text with n commas has n + 1 cells; an empty text has the one
/// empty cell.
pub open spec fn split_commas(s: Seq<char>) -> Seq<Seq<char>>
    decreases s.len(),
{
    if s.len() == 0 {
        seq![Seq::<char>::empty()]
    } else if s[0] == ',' {
        seq![Seq::<char>::empty()] + split_commas(s.drop_first())
    } else {
        let rest = split_commas(s.drop_first());
        seq![seq![s[0]] + rest[0]] + rest.drop_first()
    }
}

proof fn lemma_split_nonempty(s: Seq<char>)
    ensures
        split_commas(s).len() >= 1,
    decreases s.len(),
{
    if s.len() != 0 {
        lemma_split_nonempty(s.drop_first());
    }
}

/// How one more character extends the split: a comma opens a new empty
/// cell, anything else grows the last cell.
proof fn lemma_split_snoc(s: Seq<char>, c: char)
    ensures
        c == ',' ==> split_commas(s.push(c)) == split_commas(s).push(Seq::<char>::empty()),
        c != ',' ==> split_commas(s.push(c)) == split_commas(s).update(
            split_commas(s).len() - 1,
            split_commas(s).last().push(c),
        ),
    decreases s.len(),
{
    lemma_split_nonempty(s);
    let t = s.push(c);
    if s.len() == 0 {
        assert(t.drop_first() =~= Seq::<char>::empty());
        if c == ',' {
            assert(split_commas(t) =~= split_commas(s).push(Seq::<char>::empty()));
        } else {
            assert(seq![c] + split_commas(Seq::<char>::empty())[0] =~= Seq::<char>::empty().push(
                c,
            ));
            assert(split_commas(t) =~= split_commas(s).update(
                0,
                split_commas(s).last().push(c),
            ));
        }
    } else {
        lemma_split_nonempty(s.drop_first());
        lemma_split_snoc(s.drop_first(), c);
        assert(t.drop_first() =~= s.drop_first().push(c));
        assert(t[0] == s[0]);
        let x = split_commas(s.drop_first());
        if s[0] == ',' {
            assert(split_commas(t) == seq![Seq::<char>::empty()] + split_commas(t.drop_first()));
            assert(split_commas(s) == seq![Seq::<char>::empty()] + x);
            if c == ',' {
                assert(split_commas(t.drop_first()) == x.push(Seq::<char>::empty()));
                assert(split_commas(t) =~= split_commas(s).push(Seq::<char>::empty()));
            } else {
                assert(split_commas(t.drop_first()) == x.update(x.len() - 1, x.last().push(c)));
                assert(split_commas(s).last() == x.last());
                assert(split_commas(t) =~= split_commas(s).update(
                    split_commas(s).len() - 1,
                    split_commas(s).last().push(c),
                ));
            }
        } else {
            assert(split_commas(t) == seq![seq![t[0]] + split_commas(t.drop_first())[0]]
                + split_commas(t.drop_first()).drop_first());
            assert(split_commas(s) == seq![seq![s[0]] + x[0]] + x.drop_first());
            if c == ',' {
                assert(split_commas(t.drop_first()) == x.push(Seq::<char>::empty()));
                assert(x.push(Seq::<char>::empty())[0] == x[0]);
                assert(x.push(Seq::<char>::empty()).drop_first() =~= x.drop_first().push(
                    Seq::<char>::empty(),
                ));
                assert(split_commas(t) =~= split_commas(s).push(Seq::<char>::empty()));
            } else {
                assert(split_commas(t.drop_first()) == x.update(x.len() - 1, x.last().push(c)));
                let xu = x.update(x.len() - 1, x.last().push(c));
                if x.len() == 1 {
                    assert(xu[0] == x[0].push(c));
                    assert(seq![s[0]] + x[0].push(c) =~= (seq![s[0]] + x[0]).push(c));
                    assert(xu.drop_first() =~= x.drop_first());
                    assert(split_commas(t) =~= split_commas(s).update(
                        split_commas(s).len() - 1,
                        split_commas(s).last().push(c),
                    ));
                } else {
                    assert(xu[0] == x[0]);
                    assert(xu.drop_first() =~= x.drop_first().update(
                        x.len() - 2,
                        x.last().push(c),
                    ));
                    assert(split_commas(s).last() == x.last());
                    assert(split_commas(t) =~= split_commas(s).update(
                        split_commas(s).len() - 1,
                        split_commas(s).last().push(c),
                    ));
                }
            }
        }
    }
}

/// Splits `s` on its commas, cell for cell, without trimming.
fn split_commas_exec(s: &str) -> (r: Vec<String>)
    ensures
        r@.len() == split_commas(s@).len(),
        forall|k: int| 0 <= k < r@.len() ==> r@[k]@ == split_commas(s@)[k],
{
    let n = s.unicode_len();
    let mut cells: Vec<String> = Vec::new();
    let mut current = String::new();
    let mut i: usize = 0;
    proof {
        assert(s@.subrange(0, 0) =~= Seq::<char>::empty());
    }
    while i < n
        invariant
            i <= n,
            n == s@.len(),
            split_commas(s@.subrange(0, i as int)).len() == cells@.len() + 1,
            forall|k: int|
                0 <= k < cells@.len() ==> cells@[k]@ == split_commas(s@.subrange(0, i as int))[k],
            current@ == split_commas(s@.subrange(0, i as int)).last(),
        decreases n - i,
    {
        let c = s.get_char(i);
        proof {
            lemma_split_nonempty(s@.subrange(0, i as int));
            lemma_split_snoc(s@.subrange(0, i as int), s@[i as int]);
            assert(s@.subrange(0, i as int).push(s@[i as int]) =~= s@.subrange(0, i + 1));
        }
        if c == ',' {
            cells.push(current);
            current = String::new();
        } else {
            let piece = s.substring_char(i, i + 1);
            proof {
                assert(piece@ =~= seq![s@[i as int]]);
            }
            current.append(piece);
        }
        i += 1;
    }
    proof {
        assert(s@.subrange(0, n as int) =~= s@);
    }
    cells.push(current);
    cells
}

/// Splits comma-delimited text into its cells and trims the whitespace off
/// each: what a comma-separated file yields, cell for cell.
pub fn split_csv_cells(content: &str) -> (r: Vec<String>)
    ensures
        r@.len() == split_commas(content@).len(),
        forall|k: int| 0 <= k < r@.len() ==> r@[k]@ == trim_spec(split_commas(content@)[k]),
{
    let cells = split_commas_exec(content);
    let mut trimmed: Vec<String> = Vec::new();
    let mut j: usize = 0;
    while j < cells.len()
        invariant
            j <= cells@.len(),
            cells@.len() == split_commas(content@).len(),
            forall|k: int| 0 <= k < cells@.len() ==> cells@[k]@ == split_commas(content@)[k],
            trimmed@.len() == j,
            forall|k: int|
                0 <= k < j ==> trimmed@[k]@ == trim_spec(split_commas(content@)[k]),
        decreases cells@.len() - j,
    {
        trimmed.push(trim_spaces(cells[j].as_str()));
        j += 1;
    }
    trimmed
}

} // verus!

//! Text building blocks: decimal numbers, tab expansion, and indentation of
//! multi-line text.
use vstd::prelude::*;
use vstd::string::*;

verus! {

/// Calls `String::push`, which appends `c` to `s`.
#[verifier::external_body]
pub(crate) fn push_char(s: &mut String, c: char)
    ensures
        final(s)@ == old(s)@.push(c),
{
    s.push(c);
}

/// Whether `c` has the Unicode `White_Space` property: tab, line feed,
/// vertical tab, form feed, carriage return, space, next line, no-break
/// space, ogham space mark, the spaces from en quad to hair space, line
/// separator, paragraph separator, narrow no-break space, medium
/// mathematical space and ideographic space.
pub open spec fn white_space(c: char) -> bool {
    let u = c as u32;
    ||| 0x09 <= u <= 0x0D
    ||| u == 0x20
    ||| u == 0x85
    ||| u == 0xA0
    ||| u == 0x1680
    ||| 0x2000 <= u <= 0x200A
    ||| u == 0x2028
    ||| u == 0x2029
    ||| u == 0x202F
    ||| u == 0x205F
    ||| u == 0x3000
}

/// Whether `c` is white space, as `white_space` defines it.
fn char_is_whitespace(c: char) -> (r: bool)
    ensures
        r == white_space(c),
{
    let u = c as u32;
    (0x09 <= u && u <= 0x0D) || u == 0x20 || u == 0x85 || u == 0xA0 || u == 0x1680 || (0x2000 <= u
        && u <= 0x200A) || u == 0x2028 || u == 0x2029 || u == 0x202F || u == 0x205F || u == 0x3000
}

/// The character of a decimal digit.
pub open spec fn digit_char(d: nat) -> char {
    if d == 0 {
        '0'
    } else if d == 1 {
        '1'
    } else if d == 2 {
        '2'
    } else if d == 3 {
        '3'
    } else if d == 4 {
        '4'
    } else if d == 5 {
        '5'
    } else if d == 6 {
        '6'
    } else if d == 7 {
        '7'
    } else if d == 8 {
        '8'
    } else {
        '9'
    }
}

/// The decimal digits of `n`, most significant first, without leading zeros.
pub open spec fn nat_digits(n: nat) -> Seq<char>
    decreases n,
{
    if n < 10 {
        seq![digit_char(n)]
    } else {
        nat_digits(n / 10).push(digit_char(n % 10))
    }
}

/// The decimal notation of `n`, with a leading minus sign when negative.
pub open spec fn decimal(n: int) -> Seq<char> {
    if n < 0 {
        seq!['-'] + nat_digits((-n) as nat)
    } else {
        nat_digits(n as nat)
    }
}

/// The number that a string of decimal digits denotes.
pub open spec fn digits_value(s: Seq<char>) -> int
    decreases s.len(),
{
    if s.len() == 0 {
        0
    } else {
        digits_value(s.drop_last()) * 10 + (s.last() as int - '0' as int)
    }
}

/// The digits of `n` are decimal digits, read back they give `n`, and the
/// first one is not a zero unless `n` is zero; the notation of a negative
/// number is a minus sign before the digits of its magnitude.
pub proof fn lemma_decimal_reads_back(n: int)
    ensures
        n >= 0 ==> forall|i: int| 0 <= i < decimal(n).len() ==> '0' <= #[trigger] decimal(n)[i] <= '9',
        n < 0 ==> forall|i: int| 1 <= i < decimal(n).len() ==> '0' <= #[trigger] decimal(n)[i] <= '9',
        n >= 0 ==> digits_value(decimal(n)) == n,
        n >= 0 ==> (decimal(n)[0] == '0' <==> n == 0),
        n < 0 ==> decimal(n)[0] == '-' && decimal(n).drop_first() == nat_digits((-n) as nat)
            && digits_value(decimal(n).drop_first()) == -n,
        n < 0 ==> decimal(n)[1] != '0',
{
    if n >= 0 {
        lemma_nat_digits_read_back(n as nat);
    } else {
        lemma_nat_digits_read_back((-n) as nat);
        assert(decimal(n).drop_first() =~= nat_digits((-n) as nat));
        assert forall|i: int| 1 <= i < decimal(n).len() implies '0' <= #[trigger] decimal(n)[i] <= '9' by {
            assert(decimal(n)[i] == nat_digits((-n) as nat)[i - 1]);
        }
    }
}

proof fn lemma_digit_char_value(d: nat)
    requires
        d < 10,
    ensures
        digit_char(d) as int - '0' as int == d,
        '0' <= digit_char(d) <= '9',
        digit_char(d) == '0' <==> d == 0,
{
    assert(d == 0 || d == 1 || d == 2 || d == 3 || d == 4 || d == 5 || d == 6 || d == 7 || d == 8
        || d == 9);
}

proof fn lemma_nat_digits_read_back(n: nat)
    ensures
        forall|i: int| 0 <= i < nat_digits(n).len() ==> '0' <= #[trigger] nat_digits(n)[i] <= '9',
        nat_digits(n).len() >= 1,
        digits_value(nat_digits(n)) == n,
        nat_digits(n)[0] == '0' <==> n == 0,
    decreases n,
{
    lemma_digit_char_value(n % 10);
    if n < 10 {
        let s = nat_digits(n);
        assert(s.drop_last() =~= Seq::<char>::empty());
        assert(digits_value(s) == digits_value(s.drop_last()) * 10 + (s.last() as int - '0' as int));
    }
    if n >= 10 {
        let q = n / 10;
        lemma_nat_digits_read_back(q);
        let s = nat_digits(n);
        assert(s.drop_last() =~= nat_digits(q));
        assert(q * 10 + n % 10 == n);
        assert(s.last() == digit_char(n % 10));
        assert(digits_value(s) == digits_value(nat_digits(q)) * 10 + (digit_char(n % 10) as int
            - '0' as int));
        assert forall|i: int| 0 <= i < s.len() implies '0' <= #[trigger] s[i] <= '9' by {
            if i < s.len() - 1 {
                assert(s[i] == nat_digits(q)[i]);
            }
        }
    }
}

fn digit(d: u64) -> (c: char)
    requires
        d < 10,
    ensures
        c == digit_char(d as nat),
{
    if d == 0 {
        '0'
    } else if d == 1 {
        '1'
    } else if d == 2 {
        '2'
    } else if d == 3 {
        '3'
    } else if d == 4 {
        '4'
    } else if d == 5 {
        '5'
    } else if d == 6 {
        '6'
    } else if d == 7 {
        '7'
    } else if d == 8 {
        '8'
    } else {
        '9'
    }
}

pub(crate) fn push_nat_digits(s: &mut String, n: u64)
    ensures
        final(s)@ == old(s)@ + nat_digits(n as nat),
    decreases n,
{
    if n >= 10 {
        push_nat_digits(s, n / 10);
    }
    push_char(s, digit(n % 10));
    assert(old(s)@ + nat_digits(n as nat) =~= if n >= 10 {
        (old(s)@ + nat_digits((n / 10) as nat)).push(digit_char((n % 10) as nat))
    } else {
        old(s)@.push(digit_char((n % 10) as nat))
    });
}

/// Appends the decimal notation of `n` to `s`.
pub(crate) fn push_decimal(s: &mut String, n: i32)
    ensures
        final(s)@ == old(s)@ + decimal(n as int),
{
    if n < 0 {
        push_char(s, '-');
        let m: i64 = n as i64;
        push_nat_digits(s, (-m) as u64);
        assert(old(s)@ + decimal(n as int) =~= old(s)@.push('-') + nat_digits((-m) as u64 as nat));
    } else {
        push_nat_digits(s, n as u64);
    }
}

/// `s` with every tab replaced by four spaces.
pub open spec fn expand_tabs(s: Seq<char>) -> Seq<char>
    decreases s.len(),
{
    if s.len() == 0 {
        Seq::empty()
    } else if s.last() == '\t' {
        expand_tabs(s.drop_last()) + seq![' ', ' ', ' ', ' ']
    } else {
        expand_tabs(s.drop_last()).push(s.last())
    }
}

/// Appends `line` to `s` with every tab replaced by four spaces.
pub(crate) fn push_expanding_tabs(s: &mut String, line: &str)
    ensures
        final(s)@ == old(s)@ + expand_tabs(line@),
{
    let n = line.unicode_len();
    let mut i: usize = 0;
    while i < n
        invariant
            n == line@.len(),
            i <= n,
            s@ == old(s)@ + expand_tabs(line@.subrange(0, i as int)),
        decreases n - i,
    {
        let c = line.get_char(i);
        let ghost before = s@;
        if c == '\t' {
            push_char(s, ' ');
            push_char(s, ' ');
            push_char(s, ' ');
            push_char(s, ' ');
        } else {
            push_char(s, c);
        }
        assert(line@.subrange(0, i + 1).drop_last() =~= line@.subrange(0, i as int));
        assert(s@ =~= old(s)@ + expand_tabs(line@.subrange(0, i + 1)));
        i = i + 1;
    }
    assert(line@.subrange(0, n as int) =~= line@);
}

/// Every character of `s` is white space.
pub open spec fn all_white_space(s: Seq<char>) -> bool {
    forall|i: int| 0 <= i < s.len() ==> white_space(#[trigger] s[i])
}

/// The pieces of `s` between newline characters, in order; there is one
/// more piece than there are newlines.
pub open spec fn split_lines(s: Seq<char>) -> Seq<Seq<char>>
    decreases s.len(),
{
    if s.len() == 0 {
        seq![Seq::empty()]
    } else {
        let rest = split_lines(s.drop_last());
        if s.last() == '\n' {
            rest.push(Seq::empty())
        } else {
            rest.update(rest.len() - 1, rest.last().push(s.last()))
        }
    }
}

/// The pieces joined with a newline between each two of them.
pub open spec fn join_lines(pieces: Seq<Seq<char>>) -> Seq<char>
    decreases pieces.len(),
{
    if pieces.len() == 0 {
        Seq::empty()
    } else if pieces.len() == 1 {
        pieces[0]
    } else {
        join_lines(pieces.drop_last()) + seq!['\n'] + pieces.last()
    }
}

/// One line indented: blank lines (only white space) become empty,
/// others get `indentation` in front.
pub open spec fn indent_line(line: Seq<char>, indentation: Seq<char>) -> Seq<char> {
    if all_white_space(line) {
        Seq::empty()
    } else {
        indentation + line
    }
}

/// Every line of `s` indented by `indent_line`, joined again by newlines.
pub open spec fn spec_indent(s: Seq<char>, indentation: Seq<char>) -> Seq<char> {
    join_lines(split_lines(s).map_values(|line: Seq<char>| indent_line(line, indentation)))
}

proof fn lemma_split_lines_nonempty(s: Seq<char>)
    ensures
        split_lines(s).len() >= 1,
    decreases s.len(),
{
    if s.len() > 0 {
        lemma_split_lines_nonempty(s.drop_last());
    }
}

/// Indents every non-blank line of `s` by `indentation` and empties the
/// blank ones, keeping the newlines.
pub fn indent(s: String, indentation: &str) -> (r: String)
    ensures
        r@ == spec_indent(s@, indentation@),
{
    let n = s.as_str().unicode_len();
    let mut done = String::new();
    let mut line = String::new();
    let mut blank = true;
    let mut i: usize = 0;
    while i < n
        invariant
            n == s@.len(),
            i <= n,
            split_lines(s@.subrange(0, i as int)).last() == line@,
            blank == all_white_space(line@),
            ({
                let pieces = split_lines(s@.subrange(0, i as int));
                let indented = pieces.map_values(|l: Seq<char>| indent_line(l, indentation@));
                done@ == if pieces.len() == 1 {
                    Seq::<char>::empty()
                } else {
                    join_lines(indented.drop_last()) + seq!['\n']
                }
            }),
        decreases n - i,
    {
        let c = s.as_str().get_char(i);
        let ghost prefix = s@.subrange(0, i as int);
        let ghost next = s@.subrange(0, i + 1);
        proof {
            assert(next.drop_last() =~= prefix);
            assert(next.last() == c);
            lemma_split_lines_nonempty(prefix);
        }
        if c == '\n' {
            let ghost pieces = split_lines(prefix);
            let ghost indented = pieces.map_values(|l: Seq<char>| indent_line(l, indentation@));
            if !blank {
                done.append(indentation);
                done.append(line.as_str());
            }
            push_char(&mut done, '\n');
            line = String::new();
            blank = true;
            proof {
                let pieces2 = split_lines(next);
                let indented2 = pieces2.map_values(|l: Seq<char>| indent_line(l, indentation@));
                assert(pieces2 == pieces.push(Seq::<char>::empty()));
                assert(indented2.drop_last() =~= indented);
                if pieces.len() == 1 {
                    assert(join_lines(indented) == indented[0]);
                }
                assert(done@ =~= join_lines(indented2.drop_last()) + seq!['\n']);
                assert(all_white_space(Seq::<char>::empty()));
            }
        } else {
            let ws = char_is_whitespace(c);
            let ghost old_line = line@;
            push_char(&mut line, c);
            blank = blank && ws;
            proof {
                let pieces = split_lines(prefix);
                let pieces2 = split_lines(next);
                assert(pieces2 == pieces.update(pieces.len() - 1, pieces.last().push(c)));
                assert(pieces2.last() == line@);
                let indented = pieces.map_values(|l: Seq<char>| indent_line(l, indentation@));
                let indented2 = pieces2.map_values(|l: Seq<char>| indent_line(l, indentation@));
                assert(indented2.drop_last() =~= indented.drop_last());
                assert forall|j: int| 0 <= j < line@.len() implies white_space(#[trigger] line@[j])
                    == (if j < old_line.len() { white_space(old_line[j]) } else { white_space(c) }) by {
                    if j < old_line.len() {
                        assert(line@[j] == old_line[j]);
                    }
                }
                if blank {
                    assert(all_white_space(line@));
                } else {
                    if !ws {
                        assert(line@[old_line.len() as int] == c);
                    } else {
                        let j = choose|j: int| 0 <= j < old_line.len() && !white_space(old_line[j]);
                        assert(line@[j] == old_line[j]);
                    }
                }
            }
        }
        i = i + 1;
    }
    proof {
        assert(s@.subrange(0, n as int) =~= s@);
        lemma_split_lines_nonempty(s@);
    }
    if !blank {
        done.append(indentation);
        done.append(line.as_str());
    }
    proof {
        let pieces = split_lines(s@);
        let indented = pieces.map_values(|l: Seq<char>| indent_line(l, indentation@));
        if pieces.len() == 1 {
            assert(done@ =~= indented[0]);
        } else {
            assert(indented.drop_last().push(indented.last()) =~= indented);
            assert(done@ =~= join_lines(indented.drop_last()) + seq!['\n'] + indented.last());
        }
    }
    done
}


/// `s` holds no newline character.
pub open spec fn single_line(s: Seq<char>) -> bool {
    !s.contains('\n')
}

/// Text without tabs is left as it is by tab expansion.
pub proof fn lemma_expand_tabs_keeps_tab_free_text(s: Seq<char>)
    requires
        !s.contains('\t'),
    ensures
        expand_tabs(s) == s,
    decreases s.len(),
{
    if s.len() > 0 {
        assert(s.drop_last().len() < s.len());
        assert(!s.drop_last().contains('\t')) by {
            if s.drop_last().contains('\t') {
                let k = choose|k: int| 0 <= k < s.drop_last().len() && s.drop_last()[k] == '\t';
                assert(s[k] == '\t');
            }
        }
        lemma_expand_tabs_keeps_tab_free_text(s.drop_last());
        assert(s.last() == s[s.len() - 1]);
        assert(s.drop_last().push(s.last()) =~= s);
    }
}

/// Tab expansion leaves no tab behind.
pub proof fn lemma_expand_tabs_has_no_tab(s: Seq<char>)
    ensures
        !expand_tabs(s).contains('\t'),
    decreases s.len(),
{
    if s.len() > 0 {
        lemma_expand_tabs_has_no_tab(s.drop_last());
        let e = expand_tabs(s.drop_last());
        let r = expand_tabs(s);
        assert forall|k: int| 0 <= k < r.len() implies r[k] != '\t' by {
            if k < e.len() {
                assert(r[k] == e[k]);
            }
        }
    }
}

proof fn lemma_split_lines_append_single_line(a: Seq<char>, b: Seq<char>)
    requires
        single_line(b),
    ensures
        split_lines(a + b) == split_lines(a).update(
            split_lines(a).len() - 1,
            split_lines(a).last() + b,
        ),
    decreases b.len(),
{
    lemma_split_lines_nonempty(a);
    if b.len() == 0 {
        assert(a + b =~= a);
        assert(split_lines(a).last() + b =~= split_lines(a).last());
        assert(split_lines(a).update(split_lines(a).len() - 1, split_lines(a).last())
            =~= split_lines(a));
    } else {
        let b0 = b.drop_last();
        let c = b.last();
        assert(single_line(b0)) by {
            if b0.contains('\n') {
                let k = choose|k: int| 0 <= k < b0.len() && b0[k] == '\n';
                assert(b[k] == '\n');
            }
        }
        assert(c != '\n') by {
            assert(b[b.len() - 1] == c);
        }
        lemma_split_lines_append_single_line(a, b0);
        assert((a + b).drop_last() =~= a + b0);
        assert((a + b).last() == c);
        assert(split_lines(a).last() + b0 + seq![c] =~= split_lines(a).last() + b);
        let sa = split_lines(a);
        let rest = split_lines(a + b0);
        assert(rest == sa.update(sa.len() - 1, sa.last() + b0));
        assert(rest.len() == sa.len());
        assert(rest.last() == sa.last() + b0);
        assert(split_lines(a + b) == rest.update(rest.len() - 1, rest.last().push(c)));
        assert((sa.last() + b0).push(c) =~= sa.last() + b);
        assert(split_lines(a + b) =~= split_lines(a).update(
            split_lines(a).len() - 1,
            split_lines(a).last() + b,
        ));
    }
}

proof fn lemma_split_lines_of_join(pieces: Seq<Seq<char>>)
    requires
        pieces.len() >= 1,
        forall|k: int| 0 <= k < pieces.len() ==> single_line(#[trigger] pieces[k]),
    ensures
        split_lines(join_lines(pieces)) == pieces,
    decreases pieces.len(),
{
    if pieces.len() == 1 {
        lemma_split_lines_append_single_line(Seq::empty(), pieces[0]);
        assert(Seq::<char>::empty() + pieces[0] =~= pieces[0]);
        assert(split_lines(Seq::<char>::empty()) == seq![Seq::<char>::empty()]);
        assert(Seq::<char>::empty() + pieces[0] =~= pieces[0]);
        assert(seq![Seq::<char>::empty()].update(0, Seq::<char>::empty() + pieces[0]) =~= pieces);
    } else {
        let front = pieces.drop_last();
        assert forall|k: int| 0 <= k < front.len() implies single_line(#[trigger] front[k]) by {
            assert(front[k] == pieces[k]);
        }
        lemma_split_lines_of_join(front);
        let a = join_lines(front) + seq!['\n'];
        lemma_split_lines_nonempty(join_lines(front));
        assert(a.drop_last() =~= join_lines(front));
        assert(split_lines(a) == front.push(Seq::<char>::empty()));
        assert(single_line(pieces.last())) by {
            assert(pieces.last() == pieces[pieces.len() - 1]);
        }
        lemma_split_lines_append_single_line(a, pieces.last());
        assert(Seq::<char>::empty() + pieces.last() =~= pieces.last());
        assert(split_lines(join_lines(pieces)) =~= pieces);
    }
}

proof fn lemma_split_lines_are_single_lines(s: Seq<char>)
    ensures
        forall|k: int| 0 <= k < split_lines(s).len() ==> single_line(#[trigger] split_lines(s)[k]),
    decreases s.len(),
{
    if s.len() > 0 {
        let rest = split_lines(s.drop_last());
        lemma_split_lines_are_single_lines(s.drop_last());
        lemma_split_lines_nonempty(s.drop_last());
        if s.last() != '\n' {
            let l = rest.last().push(s.last());
            assert(single_line(rest.last())) by {
                assert(rest.last() == rest[rest.len() - 1]);
            }
            assert(single_line(l)) by {
                if l.contains('\n') {
                    let k = choose|k: int| 0 <= k < l.len() && l[k] == '\n';
                    if k < rest.last().len() {
                        assert(rest.last()[k] == '\n');
                    }
                }
            }
        } else {
            assert(single_line(Seq::<char>::empty()));
        }
    }
}

/// Indenting keeps the line structure: with an indentation that holds no
/// newline, the lines of the result are the lines of `s`, each indented
/// (blank ones emptied).
pub proof fn lemma_indent_keeps_lines(s: Seq<char>, indentation: Seq<char>)
    requires
        single_line(indentation),
    ensures
        split_lines(spec_indent(s, indentation)) == split_lines(s).map_values(
            |line: Seq<char>| indent_line(line, indentation),
        ),
{
    let pieces = split_lines(s);
    let indented = pieces.map_values(|line: Seq<char>| indent_line(line, indentation));
    lemma_split_lines_nonempty(s);
    lemma_split_lines_are_single_lines(s);
    assert forall|k: int| 0 <= k < indented.len() implies single_line(#[trigger] indented[k]) by {
        let line = pieces[k];
        assert(single_line(line));
        if !all_white_space(line) {
            let r = indentation + line;
            assert(indented[k] == r);
            if r.contains('\n') {
                let j = choose|j: int| 0 <= j < r.len() && r[j] == '\n';
                if j < indentation.len() {
                    assert(indentation[j] == '\n');
                } else {
                    assert(line[j - indentation.len()] == '\n');
                }
            }
        }
    }
    lemma_split_lines_of_join(indented);
}

} // verus!

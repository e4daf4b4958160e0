use vstd::prelude::*;

verus! {

/// A sequence of control angles, one per frame, in thousandths of a degree.
pub type Inputs = Vec<u32>;

/// The character of decimal digit `d`.
pub open spec fn digit_char(d: int) -> char {
    if d == 0 {
        '0'
    } else if d == 1 {
        '1'
    } else if d == 2 {
        '2'
    } else if d == 3 {
        '3'
    } else if d == 4 {
        '4'
    } else if d == 5 {
        '5'
    } else if d == 6 {
        '6'
    } else if d == 7 {
        '7'
    } else if d == 8 {
        '8'
    } else {
        '9'
    }
}

/// `n` written in decimal, without leading zeros.
pub open spec fn decimal(n: nat) -> Seq<char>
    decreases n,
{
    if n < 10 {
        seq![digit_char(n as int)]
    } else {
        decimal(n / 10).push(digit_char((n % 10) as int))
    }
}

/// The digits after the point of `f` thousandths (`0 < f < 1000`): three digits,
/// zero-padded on the left, with the trailing zeros dropped.
pub open spec fn fraction_digits(f: nat) -> Seq<char> {
    let d1 = digit_char((f / 100) as int);
    let d2 = digit_char(((f / 10) % 10) as int);
    let d3 = digit_char((f % 10) as int);
    if f % 10 != 0 {
        seq![d1, d2, d3]
    } else if (f / 10) % 10 != 0 {
        seq![d1, d2]
    } else {
        seq![d1]
    }
}

/// An angle of `a` thousandths of a degree in degrees: the whole part, then a point and
/// the fraction where it is not zero (`4200` reads `4.2`, `5000` reads `5`).
pub open spec fn angle_text(a: u32) -> Seq<char> {
    let whole = decimal((a / 1000) as nat);
    if a % 1000 == 0 {
        whole
    } else {
        whole + seq!['.'] + fraction_digits((a % 1000) as nat)
    }
}

/// The runs of equal consecutive angles of `s`, in order, each as (count, angle).
pub open spec fn runs(s: Seq<u32>) -> Seq<(nat, u32)>
    decreases s.len(),
{
    if s.len() == 0 {
        Seq::empty()
    } else {
        let r = runs(s.drop_last());
        if r.len() > 0 && r.last().1 == s.last() {
            r.update(r.len() - 1, ((r.last().0 + 1) as nat, s.last()))
        } else {
            r.push((1, s.last()))
        }
    }
}

/// One line of output: `<count>,f,<angle>` and a line break.
pub open spec fn run_line(r: (nat, u32)) -> Seq<char> {
    decimal(r.0) + seq![',', 'f', ','] + angle_text(r.1) + seq!['\n']
}

/// The lines of all runs, in order.
pub open spec fn render(rs: Seq<(nat, u32)>) -> Seq<char>
    decreases rs.len(),
{
    if rs.len() == 0 {
        Seq::empty()
    } else {
        render(rs.drop_last()) + run_line(rs.last())
    }
}

/// The text that `format_inputs` produces for `s`.
pub open spec fn encoded(s: Seq<u32>) -> Seq<char> {
    render(runs(s))
}

/// The angles that the runs `rs` stand for, in order.
pub open spec fn expand(rs: Seq<(nat, u32)>) -> Seq<u32>
    decreases rs.len(),
{
    if rs.len() == 0 {
        Seq::empty()
    } else {
        expand(rs.drop_last()) + Seq::new(rs.last().0, |_i: int| rs.last().1)
    }
}

fn digit_str(d: u64) -> (r: &'static str)
    requires
        d < 10,
    ensures
        r@ == seq![digit_char(d as int)],
{
    proof {
        reveal_strlit("0");
        reveal_strlit("1");
        reveal_strlit("2");
        reveal_strlit("3");
        reveal_strlit("4");
        reveal_strlit("5");
        reveal_strlit("6");
        reveal_strlit("7");
        reveal_strlit("8");
        reveal_strlit("9");
    }
    match d {
        0 => "0",
        1 => "1",
        2 => "2",
        3 => "3",
        4 => "4",
        5 => "5",
        6 => "6",
        7 => "7",
        8 => "8",
        _ => "9",
    }
}

fn write_decimal(out: &mut String, n: u64)
    ensures
        final(out)@ == old(out)@ + decimal(n as nat),
    decreases n,
{
    if n >= 10 {
        write_decimal(out, n / 10);
    }
    out.append(digit_str(n % 10));
    proof {
        if n >= 10 {
            assert(decimal(n as nat) == decimal((n / 10) as nat).push(digit_char((n % 10) as int)));
        }
    }
    assert(final(out)@ =~= old(out)@ + decimal(n as nat));
}

fn write_angle(out: &mut String, a: u32)
    ensures
        final(out)@ == old(out)@ + angle_text(a),
{
    write_decimal(out, (a / 1000) as u64);
    let f = a % 1000;
    if f != 0 {
        proof {
            reveal_strlit(".");
        }
        out.append(".");
        out.append(digit_str((f / 100) as u64));
        if f % 10 != 0 {
            out.append(digit_str(((f / 10) % 10) as u64));
            out.append(digit_str((f % 10) as u64));
        } else if (f / 10) % 10 != 0 {
            out.append(digit_str(((f / 10) % 10) as u64));
        }
    }
    assert(final(out)@ =~= old(out)@ + angle_text(a));
}

fn write_run(out: &mut String, count: u64, a: u32)
    ensures
        final(out)@ == old(out)@ + run_line((count as nat, a)),
{
    write_decimal(out, count);
    proof {
        reveal_strlit(",f,");
        reveal_strlit("\n");
    }
    out.append(",f,");
    write_angle(out, a);
    out.append("\n");
    assert(final(out)@ =~= old(out)@ + run_line((count as nat, a)));
}

/// Writes `inp` as one line `<count>,f,<angle>` per run of equal consecutive angles,
/// in degrees (`[4200, 99300, 99300]` gives `1,f,4.2\n2,f,99.3\n`).
pub fn format_inputs(inp: Inputs) -> (r: String)
    ensures
        r@ == encoded(inp@),
{
    let mut out = String::new();
    if inp.len() == 0 {
        assert(out@ =~= encoded(inp@));
        return out;
    }
    let mut count: usize = 1;
    let mut current = inp[0];
    let ghost mut done: Seq<(nat, u32)> = Seq::empty();
    assert(inp@.subrange(0, 1).drop_last() =~= Seq::<u32>::empty());
    assert(runs(Seq::<u32>::empty()) == Seq::<(nat, u32)>::empty());
    assert(runs(inp@.subrange(0, 1)) =~= done.push((1, current)));
    let mut i: usize = 1;
    while i < inp.len()
        invariant
            1 <= i <= inp@.len(),
            1 <= count <= i,
            current == inp@[i - 1],
            runs(inp@.subrange(0, i as int)) == done.push((count as nat, current)),
            out@ == render(done),
        decreases inp@.len() - i,
    {
        let ghost prev = inp@.subrange(0, i as int);
        assert(inp@.subrange(0, i + 1).drop_last() =~= prev);
        if inp[i] == current {
            count = count + 1;
            assert(done.push((count as nat, current)) =~= done.push(((count - 1) as nat, current)).update(
                done.len() as int,
                (count as nat, current),
            ));
        } else {
            write_run(&mut out, count as u64, current);
            proof {
                assert(done.push((count as nat, current)).drop_last() =~= done);
                done = done.push((count as nat, current));
            }
            count = 1;
            current = inp[i];
        }
        i = i + 1;
    }
    write_run(&mut out, count as u64, current);
    assert(inp@.subrange(0, i as int) =~= inp@);
    assert(done.push((count as nat, current)).drop_last() =~= done);
    out
}

/// The runs of a sequence give it back: expanding them yields the sequence, every run
/// holds at least one angle, and two neighbouring runs have different angles.
pub proof fn lemma_runs_round_trip(s: Seq<u32>)
    ensures
        expand(runs(s)) == s,
        forall|i: int| 0 <= i < runs(s).len() ==> #[trigger] runs(s)[i].0 >= 1,
        forall|i: int| 0 < i < runs(s).len() ==> #[trigger] runs(s)[i].1 != runs(s)[i - 1].1,
    decreases s.len(),
{
    if s.len() > 0 {
        let p = s.drop_last();
        lemma_runs_round_trip(p);
        let r = runs(p);
        let v = s.last();
        assert(p.push(v) =~= s);
        if r.len() > 0 && r.last().1 == v {
            let c = r.last().0;
            let big = r.update(r.len() - 1, ((c + 1) as nat, v));
            assert(big.drop_last() =~= r.drop_last());
            assert(Seq::new((c + 1) as nat, |_i: int| v) =~= Seq::new(c, |_i: int| v).push(v));
            assert(expand(big) =~= expand(r).push(v));
        } else {
            let big = r.push((1, v));
            assert(big.drop_last() =~= r);
            assert(Seq::new(1, |_i: int| v) =~= seq![v]);
            assert(expand(big) =~= expand(r).push(v));
        }
    }
}

} // verus!

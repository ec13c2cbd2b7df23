//! Small helpers on strings that the rest of the library shares.

use vstd::prelude::*;
use vstd::string::*;

verus! {

/// The characters of `s`, in order.
pub fn chars_of(s: &str) -> (v: Vec<char>)
    ensures
        v@ == s@,
{
    let mut v: Vec<char> = Vec::new();
    for c in it: s.chars()
        invariant
            it.seq() == s@,
            v@ == it.seq().take(it.index() as int),
    {
        v.push(c);
    }
    v
}

/// `part` occurs in `whole` as one unbroken piece.
pub open spec fn occurs_in(part: Seq<char>, whole: Seq<char>) -> bool {
    exists|at: int|
        0 <= at && at + part.len() <= whole.len() && #[trigger] whole.subrange(
            at,
            at + part.len(),
        ) == part
}

/// A piece of a piece is a piece of the whole.
pub proof fn lemma_occurs_in_transitive(a: Seq<char>, b: Seq<char>, c: Seq<char>)
    requires
        occurs_in(a, b),
        occurs_in(b, c),
    ensures
        occurs_in(a, c),
{
    let i = choose|at: int|
        0 <= at && at + a.len() <= b.len() && #[trigger] b.subrange(at, at + a.len()) == a;
    let j = choose|at: int|
        0 <= at && at + b.len() <= c.len() && #[trigger] c.subrange(at, at + b.len()) == b;
    assert(c.subrange(j + i, j + i + a.len()) =~= c.subrange(j, j + b.len()).subrange(
        i,
        i + a.len(),
    ));
}

/// Whether `part` occurs in `whole`.
pub fn contains_text(whole: &str, part: &str) -> (found: bool)
    ensures
        found == occurs_in(part@, whole@),
{
    let w = chars_of(whole);
    let p = chars_of(part);
    if p.len() > w.len() {
        return false;
    }
    let last: usize = w.len() - p.len();
    let mut at: usize = 0;
    while at <= last
        invariant
            w@ == whole@,
            p@ == part@,
            p.len() <= w.len(),
            last == w.len() - p.len(),
            at <= last + 1,
            forall|k: int| 0 <= k < at ==> #[trigger] w@.subrange(k, k + p.len()) != p@,
        decreases last + 1 - at,
    {
        let mut i: usize = 0;
        while i < p.len() && w[at + i] == p[i]
            invariant
                at <= last,
                last == w.len() - p.len(),
                i <= p.len(),
                forall|j: int| 0 <= j < i ==> w@[at + j] == p@[j],
            decreases p.len() - i,
        {
            i += 1;
        }
        if i == p.len() {
            assert(w@.subrange(at as int, at + p.len()) =~= p@);
            return true;
        }
        assert(w@.subrange(at as int, at + p.len())[i as int] != p@[i as int]);
        at += 1;
    }
    false
}

/// The character for the digit `d`.
pub open spec fn digit(d: nat) -> char {
    if d == 0 {
        '0'
    } else if d == 1 {
        '1'
    } else if d == 2 {
        '2'
    } else if d == 3 {
        '3'
    } else if d == 4 {
        '4'
    } else if d == 5 {
        '5'
    } else if d == 6 {
        '6'
    } else if d == 7 {
        '7'
    } else if d == 8 {
        '8'
    } else {
        '9'
    }
}

/// `n` written in decimal, without leading zeros.
pub open spec fn decimal_digits(n: nat) -> Seq<char>
    decreases n,
{
    if n < 10 {
        seq![digit(n)]
    } else {
        decimal_digits(n / 10).push(digit(n % 10))
    }
}

/// The one-character text of the digit `d`.
fn digit_text(d: u16) -> (text: &'static str)
    requires
        d < 10,
    ensures
        text@ == seq![digit(d as nat)],
{
    proof {
        reveal_strlit("0");
        reveal_strlit("1");
        reveal_strlit("2");
        reveal_strlit("3");
        reveal_strlit("4");
        reveal_strlit("5");
        reveal_strlit("6");
        reveal_strlit("7");
        reveal_strlit("8");
        reveal_strlit("9");
    }
    let text = match d {
        0 => "0",
        1 => "1",
        2 => "2",
        3 => "3",
        4 => "4",
        5 => "5",
        6 => "6",
        7 => "7",
        8 => "8",
        _ => "9",
    };
    assert(text@ =~= seq![digit(d as nat)]);
    text
}

/// `n` written in decimal.
pub fn decimal(n: u16) -> (text: String)
    ensures
        text@ == decimal_digits(n as nat),
    decreases n,
{
    if n < 10 {
        String::from_str(digit_text(n))
    } else {
        let text = decimal(n / 10).concat(digit_text(n % 10));
        assert(text@ =~= decimal_digits((n / 10) as nat).push(digit((n % 10) as nat)));
        text
    }
}

/// The texts of a vector of strings.
pub open spec fn texts(strings: Seq<String>) -> Seq<Seq<char>> {
    strings.map_values(|s: String| s@)
}

/// The causes of an error as they are written under its message: each on
/// a line of its own, indented under "Caused by:".
pub open spec fn caused_by(causes: Seq<Seq<char>>) -> Seq<char>
    decreases causes.len(),
{
    if causes.len() == 0 {
        Seq::empty()
    } else {
        caused_by(causes.drop_last()) + "Caused by:\n\t"@ + causes.last() + "\n"@
    }
}

/// An error written out with the chain of its causes: the message and an
/// empty line, then the causes from the nearest to the root.
pub open spec fn error_chain_text(message: Seq<char>, causes: Seq<Seq<char>>) -> Seq<char> {
    message + "\n\n"@ + caused_by(causes)
}

/// Writes out `message` with the chain of its `causes`, the nearest cause
/// first.
pub fn error_chain_fmt(message: &str, causes: &Vec<String>) -> (report: String)
    ensures
        report@ == error_chain_text(message@, texts(causes@)),
{
    let mut report = String::from_str(message).concat("\n\n");
    let mut i: usize = 0;
    assert(texts(causes@).take(0) =~= Seq::<Seq<char>>::empty());
    while i < causes.len()
        invariant
            i <= causes.len(),
            report@ == message@ + "\n\n"@ + caused_by(texts(causes@).take(i as int)),
        decreases causes.len() - i,
    {
        report.append("Caused by:\n\t");
        report.append(causes[i].as_str());
        report.append("\n");
        proof {
            let all = texts(causes@);
            assert(all.take(i + 1).drop_last() =~= all.take(i as int));
            assert(all.take(i + 1).last() == causes@[i as int]@);
            assert(report@ =~= message@ + "\n\n"@ + caused_by(all.take(i + 1)));
        }
        i += 1;
    }
    assert(texts(causes@).take(causes.len() as int) =~= texts(causes@));
    report
}

} // verus!

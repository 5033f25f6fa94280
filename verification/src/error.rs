//! The failure of a parse, and the diagnostic it carries: the line and the
//! column of the place in the text where the deepest alternative gave up.

use crate::grammar::Halt;
use crate::scan::Stop;
use crate::text::Cursor;
use vstd::prelude::*;
use vstd::string::*;

verus! {

/// The one way in which parsing fails. `msg` is the diagnostic.
#[derive(Debug, PartialEq)]
pub enum HoconError {
    ParseError { msg: String },
}

impl HoconError {
    /// The characters of the diagnostic.
    pub open spec fn message(&self) -> Seq<char> {
        match self {
            HoconError::ParseError { msg } => msg@,
        }
    }

    /// The diagnostic.
    pub fn text(&self) -> (r: &str)
        ensures
            r@ == self.message(),
    {
        match self {
            HoconError::ParseError { msg } => msg.as_str(),
        }
    }
}

/// Number of line feeds among the first `at` characters of `s`.
pub open spec fn lines_before(s: Seq<char>, at: int) -> nat
    decreases at,
{
    if at <= 0 || at > s.len() {
        0
    } else if s[at - 1] == '\n' {
        lines_before(s, at - 1) + 1
    } else {
        lines_before(s, at - 1)
    }
}

/// Number of characters between position `at` of `s` and the start of its
/// line.
pub open spec fn column_offset(s: Seq<char>, at: int) -> nat
    decreases at,
{
    if at <= 0 || at > s.len() {
        0
    } else if s[at - 1] == '\n' {
        0
    } else {
        column_offset(s, at - 1) + 1
    }
}

/// The decimal digit for `d`.
pub open spec fn digit(d: nat) -> char {
    if d == 0 {
        '0'
    } else if d == 1 {
        '1'
    } else if d == 2 {
        '2'
    } else if d == 3 {
        '3'
    } else if d == 4 {
        '4'
    } else if d == 5 {
        '5'
    } else if d == 6 {
        '6'
    } else if d == 7 {
        '7'
    } else if d == 8 {
        '8'
    } else {
        '9'
    }
}

/// `n` written in decimal, without leading zeros.
pub open spec fn decimal(n: nat) -> Seq<char>
    decreases n,
{
    if n < 10 {
        seq![digit(n)]
    } else {
        decimal(n / 10).push(digit(n % 10))
    }
}

/// The diagnostic for a halt in the text `s`: the line and the column of the
/// halt, both counted from one, and a note where the halt is fatal.
pub open spec fn diagnostic(s: Seq<char>, h: Halt) -> Seq<char> {
    "Parse error at line "@ + decimal(lines_before(s, h.at) + 1) + ", column "@ + decimal(
        column_offset(s, h.at) + 1,
    ) + (if h.fatal {
        ": malformed number"@
    } else {
        Seq::empty()
    })
}

fn digit_text(d: u8) -> (r: &'static str)
    requires
        d < 10,
    ensures
        r@ == seq![digit(d as nat)],
{
    proof {
        reveal_strlit("0");
        reveal_strlit("1");
        reveal_strlit("2");
        reveal_strlit("3");
        reveal_strlit("4");
        reveal_strlit("5");
        reveal_strlit("6");
        reveal_strlit("7");
        reveal_strlit("8");
        reveal_strlit("9");
    }
    let r = if d == 0 {
        "0"
    } else if d == 1 {
        "1"
    } else if d == 2 {
        "2"
    } else if d == 3 {
        "3"
    } else if d == 4 {
        "4"
    } else if d == 5 {
        "5"
    } else if d == 6 {
        "6"
    } else if d == 7 {
        "7"
    } else if d == 8 {
        "8"
    } else {
        "9"
    };
    assert(r@ =~= seq![digit(d as nat)]);
    r
}

/// Appends `n` in decimal to `out`.
pub fn push_decimal(out: &mut String, n: u128)
    ensures
        final(out)@ == old(out)@ + decimal(n as nat),
    decreases n,
{
    if n >= 10 {
        push_decimal(out, n / 10);
    }
    let d: u8 = (n % 10) as u8;
    out.append(digit_text(d));
    proof {
        if n >= 10 {
            assert(old(out)@ + decimal(n as nat) =~= (old(out)@ + decimal((n / 10) as nat)) + seq![
                digit((n % 10) as nat),
            ]);
        }
    }
}

/// Counts the line feeds before the cursor and the characters between the
/// cursor and the start of its line.
pub fn locate<'a>(at: Cursor<'a>) -> (r: (usize, usize))
    ensures
        r.0 == lines_before(at.text(), at.index()),
        r.1 == column_offset(at.text(), at.index()),
{
    let ghost s = at.text();
    let mut walk = Cursor::start(at.whole());
    let mut lines: usize = 0;
    let mut column: usize = 0;
    proof {
        use_type_invariant(&at);
        at.lemma_bounds();
    }
    loop
        invariant
            s == at.text(),
            walk.text() == s,
            walk.index() <= at.index() <= s.len(),
            lines == lines_before(s, walk.index()),
            column == column_offset(s, walk.index()),
            lines <= walk.index(),
            column <= walk.index(),
        decreases at.index() - walk.index(),
    {
        if !walk.is_before(&at) {
            return (lines, column);
        }
        match walk.next() {
            None => {
                return (lines, column);
            },
            Some((found, next)) => {
                proof {
                    use_type_invariant(&next);
                    next.lemma_bounds();
                }
                if found == '\n' {
                    lines = lines + 1;
                    column = 0;
                } else {
                    column = column + 1;
                }
                walk = next;
            },
        }
    }
}

/// The failure that reports the stop `h`.
pub fn failure<'a>(h: Stop<'a>) -> (e: HoconError)
    ensures
        e.message() == diagnostic(h.at.text(), Halt { at: h.at.index(), fatal: h.fatal }),
{
    let (lines, column) = locate(h.at);
    let mut msg = "Parse error at line ".to_owned();
    push_decimal(&mut msg, lines as u128 + 1);
    msg.append(", column ");
    push_decimal(&mut msg, column as u128 + 1);
    if h.fatal {
        msg.append(": malformed number");
    } else {
        proof {
            assert(msg@ + Seq::<char>::empty() =~= msg@);
        }
    }
    HoconError::ParseError { msg }
}

} // verus!

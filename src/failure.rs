//! Failures, their kinds, and the text shown to the client.

use vstd::prelude::*;

verus! {

/// The kind of a failure, which alone decides the reply status.
#[derive(Debug, Clone, Copy, PartialEq, Eq, Structural)]
pub enum ErrorKind {
    /// The client's query could not be read, or was invalid.
    BadInput,
    /// The request used a method other than GET.
    BadMethod,
    /// A geocoding or forecast call failed, or answered with something unreadable.
    Upstream,
    /// Anything not classified above.
    Internal,
}

/// A failure and its chain of context, outermost context first.
#[derive(Debug)]
pub struct Failure {
    pub kind: ErrorKind,
    pub chain: Vec<String>,
}

/// The character of a decimal digit.
pub open spec fn digit_char(d: nat) -> char {
    if d == 0 {
        '0'
    } else if d == 1 {
        '1'
    } else if d == 2 {
        '2'
    } else if d == 3 {
        '3'
    } else if d == 4 {
        '4'
    } else if d == 5 {
        '5'
    } else if d == 6 {
        '6'
    } else if d == 7 {
        '7'
    } else if d == 8 {
        '8'
    } else {
        '9'
    }
}

/// The decimal notation of `n`, without leading zeros.
pub open spec fn decimal(n: nat) -> Seq<char>
    decreases n,
{
    if n < 10 {
        seq![digit_char(n)]
    } else {
        decimal(n / 10).push(digit_char(n % 10))
    }
}

/// The text that introduces the causes of a failure.
pub open spec fn caused_by_spec() -> Seq<char> {
    "\n\nCaused by:"@
}

/// The text that introduces one cause.
pub open spec fn cause_indent_spec() -> Seq<char> {
    "\n    "@
}

/// The causes of a failure, one indented line each.
pub open spec fn causes_text(causes: Seq<Seq<char>>) -> Seq<char>
    decreases causes.len(),
{
    if causes.len() == 0 {
        Seq::empty()
    } else {
        causes_text(causes.drop_last()) + cause_indent_spec() + causes.last()
    }
}

/// A chain of context as text: the outermost context on the first line, then
/// each cause in turn, outermost first.
pub open spec fn rendered(chain: Seq<Seq<char>>) -> Seq<char> {
    if chain.len() == 0 {
        Seq::empty()
    } else if chain.len() == 1 {
        chain[0]
    } else {
        chain[0] + caused_by_spec() + causes_text(chain.drop_first())
    }
}

/// The HTTP status that a failure of the given kind is reported with.
pub open spec fn status_spec(kind: ErrorKind) -> u16 {
    match kind {
        ErrorKind::BadInput => 400,
        ErrorKind::BadMethod => 405,
        ErrorKind::Upstream => 500,
        ErrorKind::Internal => 500,
    }
}

/// The HTTP status that a failure of the given kind is reported with.
pub fn status_code(kind: ErrorKind) -> (r: u16)
    ensures
        r == status_spec(kind),
{
    match kind {
        ErrorKind::BadInput => 400,
        ErrorKind::BadMethod => 405,
        ErrorKind::Upstream => 500,
        ErrorKind::Internal => 500,
    }
}

fn digit_str(d: u32) -> (r: &'static str)
    requires
        d < 10,
    ensures
        r@ == seq![digit_char(d as nat)],
{
    proof {
        reveal_strlit("0");
        reveal_strlit("1");
        reveal_strlit("2");
        reveal_strlit("3");
        reveal_strlit("4");
        reveal_strlit("5");
        reveal_strlit("6");
        reveal_strlit("7");
        reveal_strlit("8");
        reveal_strlit("9");
    }
    let r = if d == 0 {
        "0"
    } else if d == 1 {
        "1"
    } else if d == 2 {
        "2"
    } else if d == 3 {
        "3"
    } else if d == 4 {
        "4"
    } else if d == 5 {
        "5"
    } else if d == 6 {
        "6"
    } else if d == 7 {
        "7"
    } else if d == 8 {
        "8"
    } else {
        "9"
    };
    assert(r@ =~= seq![digit_char(d as nat)]);
    r
}

/// Appends the decimal notation of `n` to `out`.
fn push_decimal(out: &mut String, n: u32)
    ensures
        final(out)@ == old(out)@ + decimal(n as nat),
    decreases n,
{
    if n >= 10 {
        push_decimal(out, n / 10);
    }
    out.append(digit_str(n % 10));
    assert(final(out)@ =~= old(out)@ + decimal(n as nat));
}

/// The decimal notation of `n`.
pub fn decimal_text(n: u32) -> (r: String)
    ensures
        r@ == decimal(n as nat),
{
    let mut r = String::new();
    push_decimal(&mut r, n);
    assert(r@ =~= decimal(n as nat));
    r
}

impl Failure {
    /// The chain of context as character sequences, outermost first.
    pub open spec fn lines(&self) -> Seq<Seq<char>> {
        self.chain@.map_values(|s: String| s@)
    }

    /// A failure of the given kind with a single message.
    pub fn new(kind: ErrorKind, message: String) -> (r: Failure)
        ensures
            r.kind == kind,
            r.lines() == seq![message@],
    {
        let mut chain: Vec<String> = Vec::new();
        chain.push(message);
        let r = Failure { kind, chain };
        assert(r.lines() =~= seq![message@]);
        r
    }

    /// The same failure, wrapped in one more outer context.
    pub fn context(self, outer: String) -> (r: Failure)
        ensures
            r.kind == self.kind,
            r.lines() == seq![outer@] + self.lines(),
    {
        let mut chain = self.chain;
        chain.insert(0, outer);
        let r = Failure { kind: self.kind, chain };
        assert(r.lines() =~= seq![outer@] + self.lines());
        r
    }

    /// The HTTP status that this failure is reported with.
    pub fn status(&self) -> (r: u16)
        ensures
            r == status_spec(self.kind),
    {
        status_code(self.kind)
    }

    /// The failure as text: its outermost context, then its causes.
    pub fn describe(&self) -> (r: String)
        ensures
            r@ == rendered(self.lines()),
    {
        let n = self.chain.len();
        if n == 0 {
            return String::new();
        }
        let mut r = self.chain[0].clone();
        if n == 1 {
            return r;
        }
        r.append("\n\nCaused by:");
        let ghost head = r@;
        let ghost causes = self.lines().drop_first();
        let mut i: usize = 1;
        while i < n
            invariant
                1 <= i <= n,
                n == self.chain@.len(),
                causes == self.lines().drop_first(),
                r@ == head + causes_text(causes.subrange(0, i - 1)),
            decreases n - i,
        {
            r.append("\n    ");
            r.append(self.chain[i].as_str());
            proof {
                let done = causes.subrange(0, i as int);
                assert(done.drop_last() =~= causes.subrange(0, i - 1));
            }
            i = i + 1;
        }
        proof {
            assert(causes.subrange(0, n - 1) =~= causes);
        }
        r
    }
}

} // verus!

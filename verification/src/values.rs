//! Text to value parsing for configuration values: unsigned integers of
//! each width, booleans and IP addresses, as `str::parse` reads them.

use vstd::prelude::*;
use vstd::string::*;

verus! {

/// `c` is an ASCII decimal digit.
pub open spec fn is_digit(c: char) -> bool {
    '0' <= c && c <= '9'
}

/// The value of a decimal digit.
pub open spec fn digit_value(c: char) -> int {
    (c as int) - ('0' as int)
}

/// The value of a string of decimal digits.
pub open spec fn decimal_value(s: Seq<char>) -> int
    decreases s.len(),
{
    if s.len() == 0 {
        0
    } else {
        decimal_value(s.drop_last()) * 10 + digit_value(s.last())
    }
}

/// The unsigned integer that `s` denotes, when at most `max`: an optional
/// leading `+` and then one or more decimal digits, as `str::parse` reads an
/// unsigned integer type whose largest value is `max`.
pub open spec fn spec_parse_unsigned(s: Seq<char>, max: int) -> Option<int> {
    if all_digits(unsigned_body(s)) && decimal_value(unsigned_body(s)) <= max {
        Some(decimal_value(unsigned_body(s)))
    } else {
        None
    }
}

/// `s` without one leading `+`.
pub open spec fn unsigned_body(s: Seq<char>) -> Seq<char> {
    if s.len() > 0 && s[0] == '+' {
        s.drop_first()
    } else {
        s
    }
}

/// `s` is one or more decimal digits.
pub open spec fn all_digits(s: Seq<char>) -> bool {
    s.len() > 0 && forall|i: int| 0 <= i < s.len() ==> #[trigger] is_digit(s[i])
}

/// The value of a digit string is not negative.
proof fn lemma_decimal_nonneg(s: Seq<char>)
    requires
        forall|i: int| 0 <= i < s.len() ==> #[trigger] is_digit(s[i]),
    ensures
        decimal_value(s) >= 0,
    decreases s.len(),
{
    if s.len() > 0 {
        assert forall|i: int| 0 <= i < s.drop_last().len() implies #[trigger] is_digit(s.drop_last()[i]) by {
            assert(s.drop_last()[i] == s[i]);
        }
        lemma_decimal_nonneg(s.drop_last());
        assert(is_digit(s[s.len() - 1]));
    }
}

/// The value of a digit string is at least that of each of its prefixes.
proof fn lemma_decimal_grows(s: Seq<char>, i: int)
    requires
        0 <= i <= s.len(),
        forall|k: int| 0 <= k < s.len() ==> #[trigger] is_digit(s[k]),
    ensures
        decimal_value(s) >= decimal_value(s.take(i)),
    decreases s.len() - i,
{
    if i < s.len() {
        lemma_decimal_grows(s, i + 1);
        assert(s.take(i + 1).drop_last() =~= s.take(i));
        assert(is_digit(s[i]));
        assert forall|k: int| 0 <= k < s.take(i).len() implies #[trigger] is_digit(s.take(i)[k]) by {
            assert(s.take(i)[k] == s[k]);
        }
        lemma_decimal_nonneg(s.take(i));
    } else {
        assert(s.take(i) =~= s);
    }
}

/// Reads the unsigned integer in `s` when it is at most `max`.
pub fn parse_unsigned(s: &str, max: u64) -> (r: Option<u64>)
    ensures
        match r {
            Some(v) => spec_parse_unsigned(s@, max as int) == Some(v as int),
            None => spec_parse_unsigned(s@, max as int) is None,
        },
{
    let n = s.unicode_len();
    let mut start: usize = 0;
    if n > 0 && s.get_char(0) == '+' {
        start = 1;
    }
    let ghost body = unsigned_body(s@);
    assert(body =~= s@.skip(start as int));
    if start >= n {
        return None;
    }
    let mut value: u64 = 0;
    let mut over = false;
    let mut i: usize = start;
    assert(body.take(0) =~= Seq::<char>::empty());
    while i < n
        invariant
            start <= i <= n,
            n == s@.len(),
            body == s@.skip(start as int),
            body == unsigned_body(s@),
            forall|k: int| 0 <= k < i - start ==> #[trigger] is_digit(body[k]),
            !over ==> value as int == decimal_value(body.take(i - start)) && value <= max,
            over ==> decimal_value(body.take(i - start)) > max,
        decreases n - i,
    {
        let c = s.get_char(i);
        if !('0' <= c && c <= '9') {
            proof {
                assert(body[i - start] == c);
                assert(!is_digit(body[i - start]));
                assert(!(forall|k: int| 0 <= k < body.len() ==> #[trigger] is_digit(body[k])));
                assert(unsigned_body(s@) == body);
                assert(!all_digits(body));
            }
            return None;
        }
        let ghost prefix = body.take(i - start);
        let ghost next = body.take(i - start + 1);
        assert(next.drop_last() =~= prefix);
        assert(next.last() == c);
        assert forall|k: int| 0 <= k < prefix.len() implies #[trigger] is_digit(prefix[k]) by {
            assert(prefix[k] == body[k]);
        }
        proof {
            lemma_decimal_nonneg(prefix);
        }
        let d = (c as u32 - '0' as u32) as u64;
        assert(d as int == digit_value(c));
        if !over {
            if d <= max && value <= (max - d) / 10 {
                assert(value * 10 + d <= max) by (nonlinear_arith)
                    requires
                        value <= (max - d) / 10,
                        d <= max,
                ;
                value = value * 10 + d;
            } else {
                assert(value * 10 + d > max) by (nonlinear_arith)
                    requires
                        value > (max - d) / 10 || d > max,
                ;
                over = true;
            }
        } else {
            assert(decimal_value(next) >= decimal_value(prefix) * 10);
            assert(decimal_value(prefix) * 10 >= decimal_value(prefix)) by (nonlinear_arith)
                requires
                    decimal_value(prefix) >= 0,
            ;
        }
        i = i + 1;
    }
    assert(body.take(n - start) =~= body);
    if over {
        None
    } else {
        Some(value)
    }
}

/// An IP address: four octets, or eight 16-bit segments.
#[derive(Clone, Copy, Debug, PartialEq, Eq)]
pub enum HostAddr {
    V4([u8; 4]),
    V6([u16; 8]),
}

/// An address is a loopback address: `127.0.0.0/8`, or `::1`.
pub open spec fn spec_is_loopback(a: HostAddr) -> bool {
    match a {
        HostAddr::V4(o) => o@[0] == 127,
        HostAddr::V6(g) => g@ == seq![0u16, 0, 0, 0, 0, 0, 0, 1],
    }
}

impl HostAddr {
    /// `127.0.0.1`.
    pub fn localhost() -> (r: HostAddr)
        ensures
            r == HostAddr::V4([127u8, 0, 0, 1]),
    {
        HostAddr::V4([127u8, 0, 0, 1])
    }

    /// Whether the address is a loopback address.
    pub fn is_loopback(&self) -> (r: bool)
        ensures
            r == spec_is_loopback(*self),
    {
        match self {
            HostAddr::V4(o) => o[0] == 127,
            HostAddr::V6(g) => {
                let r = g[0] == 0 && g[1] == 0 && g[2] == 0 && g[3] == 0 && g[4] == 0 && g[5] == 0
                    && g[6] == 0 && g[7] == 1;
                proof {
                    if r {
                        assert(g@ =~= seq![0u16, 0, 0, 0, 0, 0, 0, 1]);
                    } else if g@ == seq![0u16, 0, 0, 0, 0, 0, 0, 1] {
                        assert(g@[0] == 0 && g@[1] == 0 && g@[2] == 0 && g@[3] == 0);
                        assert(g@[4] == 0 && g@[5] == 0 && g@[6] == 0 && g@[7] == 1);
                    }
                }
                r
            },
        }
    }
}

/// A configuration value as given, with what it reads as when taken as an
/// IP address (the reading of `IpAddr`'s `FromStr`, done where addresses
/// are parsed).
pub struct InputText {
    pub text: String,
    pub ip: Option<HostAddr>,
}

/// The value of an input text.
pub struct InputTextView {
    pub text: Seq<char>,
    pub ip: Option<HostAddr>,
}

impl View for InputText {
    type V = InputTextView;

    open spec fn view(&self) -> InputTextView {
        InputTextView { text: self.text@, ip: self.ip }
    }
}

/// A type that a configuration value is read as.
pub trait TextValue: Sized {
    /// What `t` reads as, if it is a value of the type.
    spec fn spec_read(t: InputTextView) -> Option<Self>;

    /// Reads `t` as a value of the type.
    fn read(t: &InputText) -> (r: Option<Self>)
        ensures
            r == Self::spec_read(t@),
    ;
}

impl TextValue for u8 {
    open spec fn spec_read(t: InputTextView) -> Option<u8> {
        match spec_parse_unsigned(t.text, 0xff) {
            Some(v) => Some(v as u8),
            None => None,
        }
    }

    fn read(t: &InputText) -> (r: Option<u8>) {
        match parse_unsigned(t.text.as_str(), 0xff) {
            Some(v) => {
                assert(spec_parse_unsigned(t.text@, 0xff) == Some(v as int));
                Some(v as u8)
            },
            None => None,
        }
    }
}

impl TextValue for u16 {
    open spec fn spec_read(t: InputTextView) -> Option<u16> {
        match spec_parse_unsigned(t.text, 0xffff) {
            Some(v) => Some(v as u16),
            None => None,
        }
    }

    fn read(t: &InputText) -> (r: Option<u16>) {
        match parse_unsigned(t.text.as_str(), 0xffff) {
            Some(v) => {
                assert(spec_parse_unsigned(t.text@, 0xffff) == Some(v as int));
                Some(v as u16)
            },
            None => None,
        }
    }
}

impl TextValue for u64 {
    open spec fn spec_read(t: InputTextView) -> Option<u64> {
        match spec_parse_unsigned(t.text, u64::MAX as int) {
            Some(v) => Some(v as u64),
            None => None,
        }
    }

    fn read(t: &InputText) -> (r: Option<u64>) {
        parse_unsigned(t.text.as_str(), u64::MAX)
    }
}

impl TextValue for usize {
    open spec fn spec_read(t: InputTextView) -> Option<usize> {
        match spec_parse_unsigned(t.text, usize::MAX as int) {
            Some(v) => Some(v as usize),
            None => None,
        }
    }

    fn read(t: &InputText) -> (r: Option<usize>) {
        match parse_unsigned(t.text.as_str(), usize::MAX as u64) {
            Some(v) => {
                assert(spec_parse_unsigned(t.text@, usize::MAX as int) == Some(v as int));
                Some(v as usize)
            },
            None => None,
        }
    }
}

impl TextValue for bool {
    open spec fn spec_read(t: InputTextView) -> Option<bool> {
        if t.text == "true"@ {
            Some(true)
        } else if t.text == "false"@ {
            Some(false)
        } else {
            None
        }
    }

    fn read(t: &InputText) -> (r: Option<bool>) {
        let s = t.text.as_str();
        proof {
            reveal_strlit("true");
            reveal_strlit("false");
        }
        let n = s.unicode_len();
        if n == 4 && s.get_char(0) == 't' && s.get_char(1) == 'r' && s.get_char(2) == 'u' && s.get_char(3)
            == 'e' {
            assert(s@ =~= "true"@);
            Some(true)
        } else if n == 5 && s.get_char(0) == 'f' && s.get_char(1) == 'a' && s.get_char(2) == 'l'
            && s.get_char(3) == 's' && s.get_char(4) == 'e' {
            assert(s@ =~= "false"@);
            Some(false)
        } else {
            proof {
                if s@ == "true"@ {
                    assert(s@[0] == 't' && s@[1] == 'r' && s@[2] == 'u' && s@[3] == 'e');
                }
                if s@ == "false"@ {
                    assert(s@[0] == 'f' && s@[1] == 'a' && s@[2] == 'l' && s@[3] == 's' && s@[4] == 'e');
                }
            }
            None
        }
    }
}

impl TextValue for HostAddr {
    open spec fn spec_read(t: InputTextView) -> Option<HostAddr> {
        t.ip
    }

    fn read(t: &InputText) -> (r: Option<HostAddr>) {
        t.ip
    }
}

} // verus!

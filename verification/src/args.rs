//! What a user writes on the command line: how many ports there are to be, and which device is
//! meant.
use vstd::prelude::*;

verus! {

/// The port that a server listens on.
pub const DEFAULT_PORT: u16 = 7002;

/// A character that stands for nothing but room between words.
pub open spec fn is_space(c: char) -> bool {
    let x = c as u32;
    ||| 0x9 <= x <= 0xd
    ||| x == 0x20
    ||| x == 0x85
    ||| x == 0xa0
    ||| x == 0x1680
    ||| 0x2000 <= x <= 0x200a
    ||| x == 0x2028
    ||| x == 0x2029
    ||| x == 0x202f
    ||| x == 0x205f
    ||| x == 0x3000
}

/// The text without the spaces at its ends.
pub open spec fn trimmed(s: Seq<char>) -> Seq<char>
    decreases s.len(),
{
    if s.len() == 0 {
        s
    } else if is_space(s[0]) {
        trimmed(s.drop_first())
    } else if is_space(s.last()) {
        trimmed(s.drop_last())
    } else {
        s
    }
}

/// The text without the spaces at its ends.
///
/// Trusted: `str::trim`, which removes leading and trailing whitespace, and takes for whitespace
/// what has the Unicode property `White_Space`.
#[verifier::external_body]
fn trim(s: &str) -> (r: &str)
    ensures
        r@ == trimmed(s@),
{
    s.trim()
}

/// The first `c` is at `at`.
pub open spec fn first_at(s: Seq<char>, c: char, at: int) -> bool {
    &&& 0 <= at < s.len()
    &&& s[at] == c
    &&& forall|j: int| 0 <= j < at ==> s[j] != c
}

/// What stands before and after the first `c`.
///
/// Trusted: `str::split_once` with a character, which gives the text before the first one and the
/// text after it, and nothing where there is none.
#[verifier::external_body]
fn split_once(s: &str, c: char) -> (r: Option<(&str, &str)>)
    ensures
        match r {
            Some((before, after)) => first_at(s@, c, before@.len() as int) && before@ == s@.take(
                before@.len() as int,
            ) && after@ == s@.skip(before@.len() as int + 1),
            None => !s@.contains(c),
        },
{
    s.split_once(c)
}

/// Why a text is not a number that can be held.
#[derive(Debug, Clone, Copy, PartialEq, Eq, Structural)]
pub enum ParseIntError {
    Empty,
    InvalidDigit,
    PosOverflow,
    Other,
}

/// The text without a plus sign in front.
pub open spec fn unsigned_part(s: Seq<char>) -> Seq<char> {
    if s.len() > 0 && s[0] == '+' {
        s.drop_first()
    } else {
        s
    }
}

/// The text is made of decimal digits, after a plus sign if there is one.
pub open spec fn is_number(s: Seq<char>) -> bool {
    &&& unsigned_part(s).len() > 0
    &&& forall|i: int| 0 <= i < unsigned_part(s).len() ==> '0' <= #[trigger] unsigned_part(s)[i]
        <= '9'
}

/// The number that decimal digits stand for.
pub open spec fn digits_value(s: Seq<char>) -> nat
    decreases s.len(),
{
    if s.len() == 0 {
        0
    } else {
        (10 * digits_value(s.drop_last()) + (s.last() as u32 - '0' as u32)) as nat
    }
}

/// The number that the text stands for.
pub open spec fn number_value(s: Seq<char>) -> nat {
    digits_value(unsigned_part(s))
}

/// The text is a number that a byte can hold.
pub open spec fn is_byte(s: Seq<char>) -> bool {
    is_number(s) && number_value(s) <= 255
}

/// What reading a text as a number that a byte can hold gives.
pub open spec fn parsed_u8(s: Seq<char>, r: Result<u8, ParseIntError>) -> bool {
    match r {
        Ok(n) => is_byte(s) && n == number_value(s),
        Err(e) => {
            &&& !is_byte(s)
            &&& e == ParseIntError::Empty <==> s.len() == 0
            &&& is_number(s) ==> e == ParseIntError::PosOverflow
        },
    }
}

/// The number that the text stands for.
///
/// Trusted: `<u8 as FromStr>::from_str`, which reads an optional plus sign and decimal digits, and
/// nothing else. A text of no characters, one that is no number, and one whose number is too
/// large are errors of their own. Where a text is no number but begins with one that is too
/// large, it may be either error.
#[verifier::external_body]
fn parse_u8(s: &str) -> (r: Result<u8, ParseIntError>)
    ensures
        parsed_u8(s@, r),
{
    s.parse::<u8>().map_err(
        |e| match e.kind() {
            std::num::IntErrorKind::Empty => ParseIntError::Empty,
            std::num::IntErrorKind::InvalidDigit => ParseIntError::InvalidDigit,
            std::num::IntErrorKind::PosOverflow => ParseIntError::PosOverflow,
            _ => ParseIntError::Other,
        },
    )
}

/// The number of ports of a virtual host controller.
#[derive(Debug, Clone, Copy, PartialEq, Eq, Structural)]
pub struct NumVhciPorts(pub u8);

/// Why a text is not a number of ports, of which there are between `MIN` and `MAX`.
#[derive(Debug, Clone, Copy, PartialEq, Eq)]
pub enum NumVhciPortsErr<const MIN: u8, const MAX: u8> {
    OutOfBounds,
    ParseIntError(ParseIntError),
}

impl NumVhciPorts {
    pub open spec fn wf(self) -> bool {
        1 <= self.0 <= 31
    }

    /// The number of ports that there are where the user asks for no other.
    pub fn default_ports() -> (n: Self)
        ensures
            n.wf(),
            n.0 == 4,
    {
        NumVhciPorts(4)
    }

    /// So many ports, if there can be so many.
    pub fn new(n: u8) -> (r: Option<Self>)
        ensures
            r == (if 1 <= n <= 31 {
                Some(NumVhciPorts(n))
            } else {
                None::<NumVhciPorts>
            }),
    {
        if 1 <= n && n <= 31 {
            Some(NumVhciPorts(n))
        } else {
            None
        }
    }

    /// The number of ports that a text asks for.
    pub fn from_str(s: &str) -> (r: Result<Self, NumVhciPortsErr<1, 31>>)
        ensures
            match r {
                Ok(n) => n.wf() && is_number(s@) && number_value(s@) == n.0,
                Err(NumVhciPortsErr::OutOfBounds) => is_byte(s@) && !(1 <= number_value(s@) <= 31),
                Err(NumVhciPortsErr::ParseIntError(e)) => parsed_u8(
                    s@,
                    Err::<u8, ParseIntError>(e),
                ),
            },
    {
        match parse_u8(s) {
            Err(e) => Err(NumVhciPortsErr::ParseIntError(e)),
            Ok(n) => match NumVhciPorts::new(n) {
                Some(n) => Ok(n),
                None => Err(NumVhciPortsErr::OutOfBounds),
            },
        }
    }
}

/// The device that a user means, by its bus and its number there.
#[derive(Debug, Clone, Copy, PartialEq, Eq, Structural)]
pub struct DeviceId {
    pub bus: u8,
    pub dev: u8,
}

/// Why a text names no device.
#[derive(Debug, Clone, Copy, PartialEq, Eq, Structural)]
pub enum DeviceIdParseError {
    MissingColon,
    ParseIntError(ParseIntError),
}

/// The first part, where the text is cut at its first colon.
pub open spec fn bus_part(s: Seq<char>) -> Seq<char> {
    s.take(s.index_of_first(':')->0)
}

/// The second part, where the text is cut at its first colon.
pub open spec fn dev_part(s: Seq<char>) -> Seq<char> {
    s.skip(s.index_of_first(':')->0 + 1)
}

impl DeviceId {
    /// The device that a text names: a bus, a colon and a device, with spaces around if need be.
    pub fn from_str(s: &str) -> (r: Result<Self, DeviceIdParseError>)
        ensures
            ({
                let t = trimmed(s@);
                let bus = bus_part(t);
                let dev = dev_part(t);
                match r {
                    Ok(id) => {
                        &&& t.contains(':')
                        &&& is_byte(bus) && id.bus == number_value(bus)
                        &&& is_byte(dev) && id.dev == number_value(dev)
                    },
                    Err(DeviceIdParseError::MissingColon) => !t.contains(':'),
                    Err(DeviceIdParseError::ParseIntError(e)) => {
                        // the part at fault: the bus, or where that is right the device
                        let part = if is_byte(bus) {
                            dev
                        } else {
                            bus
                        };
                        t.contains(':') && parsed_u8(part, Err::<u8, ParseIntError>(e))
                    },
                }
            }),
    {
        let t = trim(s);
        let (bus, dev) = match split_once(t, ':') {
            None => return Err(DeviceIdParseError::MissingColon),
            Some(parts) => parts,
        };
        proof {
            t@.index_of_first_ensures(':');
            assert(t@[bus@.len() as int] == ':');
            assert(t@.contains(':'));
            assert(t@.index_of_first(':')->0 == bus@.len());
        }
        let bus: u8 = match parse_u8(bus) {
            Ok(n) => n,
            Err(e) => return Err(DeviceIdParseError::ParseIntError(e)),
        };
        let dev: u8 = match parse_u8(dev) {
            Ok(n) => n,
            Err(e) => return Err(DeviceIdParseError::ParseIntError(e)),
        };
        Ok(DeviceId { bus, dev })
    }
}

} // verus!

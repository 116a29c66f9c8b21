//! Reading the command line: `<program> <address>`, or
//! `<program> -j <threads> <address>`, or a request for help.
//!
//! Telling whether a word is an IPv4 or IPv6 address is left to the caller,
//! which hands in the address that the second and the fourth word spell, if
//! they spell one. Everything else is decided here, on the words' UTF-8 bytes.
use vstd::prelude::*;
use vstd::utf8::encode_utf8;

verus! {

/// The number of workers when no `-j` is given.
pub const DEFAULT_THREADS: u16 = 4;

/// An IP address, as the integer that its bits spell.
#[derive(Clone, Copy, Debug, PartialEq, Eq, Structural)]
pub enum Address {
    V4(u32),
    V6(u128),
}

/// Why the command line does not start a scan.
#[derive(Clone, Copy, Debug, PartialEq, Eq, Structural)]
pub enum ArgError {
    /// Help was asked for; this is no failure.
    Help,
    InsufficientArguments,
    ExcessiveArguments,
    /// A help flag came together with further words.
    HelpNotExclusive,
    InvalidAddress,
    InvalidThreadCount,
    InvalidSyntax,
}

/// What a scan runs with.
pub struct Arguments {
    /// The flag word as given, or empty when the address came alone.
    pub flag: String,
    pub ipaddr: Address,
    /// The number of workers, at least one.
    pub threads: u16,
}

/// The UTF-8 bytes of a word.
pub open spec fn word_bytes(s: String) -> Seq<u8> {
    encode_utf8(s@)
}

/// `pat` occurs in `s` as a run of consecutive bytes.
pub open spec fn occurs_in(s: Seq<u8>, pat: Seq<u8>) -> bool {
    exists|i: int| 0 <= i <= s.len() - pat.len() && #[trigger] s.subrange(i, i + pat.len()) == pat
}

/// `-h`
pub open spec fn short_help() -> Seq<u8> {
    seq![45u8, 104u8]
}

/// `-help`
pub open spec fn long_help() -> Seq<u8> {
    seq![45u8, 104u8, 101u8, 108u8, 112u8]
}

/// `-j`
pub open spec fn jobs_flag() -> Seq<u8> {
    seq![45u8, 106u8]
}

pub open spec fn is_digit(b: u8) -> bool {
    48 <= b <= 57
}

/// The number that a run of decimal digits spells.
pub open spec fn digits_value(d: Seq<u8>) -> int
    decreases d.len(),
{
    if d.len() == 0 {
        0
    } else {
        10 * digits_value(d.drop_last()) + (d.last() - 48)
    }
}

/// The digits of a number word: all of it, or what follows a leading `+`.
pub open spec fn number_digits(b: Seq<u8>) -> Seq<u8> {
    if b.len() > 0 && b[0] == 43u8 {
        b.drop_first()
    } else {
        b
    }
}

/// The `u16` that a word spells in decimal, with an optional leading `+`.
pub open spec fn parse_u16_spec(b: Seq<u8>) -> Option<u16> {
    let d = number_digits(b);
    if d.len() == 0 || exists|i: int| 0 <= i < d.len() && !is_digit(#[trigger] d[i]) {
        None
    } else if digits_value(d) > u16::MAX {
        None
    } else {
        Some(digits_value(d) as u16)
    }
}

/// The first word after the program is a help flag.
pub open spec fn is_help_flag(flag: Seq<u8>) -> bool {
    occurs_in(flag, short_help()) || occurs_in(flag, long_help())
}

/// The command line asks for help, and for nothing else.
pub open spec fn asks_help(flag: Seq<u8>, n_words: int) -> bool {
    is_help_flag(flag) && n_words == 2
}

/// Whether `pat` occurs in `s`.
fn occurs(s: &[u8], pat: &Vec<u8>) -> (r: bool)
    ensures
        r == occurs_in(s@, pat@),
{
    if pat.len() > s.len() {
        assert forall|i: int| 0 <= i <= s@.len() - pat@.len() implies #[trigger] s@.subrange(
            i,
            i + pat@.len(),
        ) != pat@ by {}
        return false;
    }
    let last: usize = s.len() - pat.len();
    let mut i: usize = 0;
    loop
        invariant
            i <= last,
            last == s@.len() - pat@.len(),
            pat@.len() <= s@.len(),
            s@.len() <= usize::MAX,
            forall|k: int| 0 <= k < i ==> #[trigger] s@.subrange(k, k + pat@.len()) != pat@,
        decreases last - i,
    {
        let mut j: usize = 0;
        let mut same: bool = true;
        while j < pat.len()
            invariant
                i <= last,
                last == s@.len() - pat@.len(),
                pat@.len() <= s@.len(),
                s@.len() <= usize::MAX,
                j <= pat@.len(),
                same == forall|m: int| 0 <= m < j ==> s@[i + m] == #[trigger] pat@[m],
            decreases pat@.len() - j,
        {
            if s[i + j] != pat[j] {
                same = false;
            }
            j = j + 1;
        }
        if same {
            assert(s@.subrange(i as int, i + pat@.len()) =~= pat@);
            return true;
        }
        assert(s@.subrange(i as int, i + pat@.len()) != pat@) by {
            let m = choose|m: int| 0 <= m < pat@.len() && s@[i + m] != #[trigger] pat@[m];
            assert(s@.subrange(i as int, i + pat@.len())[m] == s@[i + m]);
        }
        if i == last {
            return false;
        }
        i = i + 1;
    }
}

proof fn lemma_digits_value_nonneg(d: Seq<u8>)
    requires
        forall|i: int| 0 <= i < d.len() ==> is_digit(#[trigger] d[i]),
    ensures
        digits_value(d) >= 0,
    decreases d.len(),
{
    if d.len() > 0 {
        lemma_digits_value_nonneg(d.drop_last());
    }
}

/// The `u16` that `b` spells in decimal, with an optional leading `+`.
pub fn parse_u16(b: &[u8]) -> (r: Option<u16>)
    ensures
        r == parse_u16_spec(b@),
{
    let mut start: usize = 0;
    if b.len() > 0 && b[0] == 43u8 {
        start = 1;
    }
    let ghost d = number_digits(b@);
    assert(d =~= b@.subrange(start as int, b@.len() as int));
    if start == b.len() {
        return None;
    }
    let mut acc: u32 = 0;
    let mut i: usize = start;
    while i < b.len()
        invariant
            start <= i <= b@.len(),
            d == b@.subrange(start as int, b@.len() as int),
            d == number_digits(b@),
            forall|k: int| start <= k < i ==> is_digit(#[trigger] b@[k]),
            acc <= 65536,
            digits_value(b@.subrange(start as int, i as int)) >= 65536 ==> acc == 65536,
            digits_value(b@.subrange(start as int, i as int)) < 65536 ==> acc == digits_value(
                b@.subrange(start as int, i as int),
            ),
        decreases b@.len() - i,
    {
        let c = b[i];
        if c < 48u8 || c > 57u8 {
            assert(!is_digit(d[i - start]));
            return None;
        }
        let ghost prev = b@.subrange(start as int, i as int);
        let ghost next = b@.subrange(start as int, i + 1);
        assert(next.drop_last() =~= prev);
        assert(forall|k: int| 0 <= k < prev.len() ==> is_digit(#[trigger] prev[k]));
        proof {
            lemma_digits_value_nonneg(prev);
        }
        let v: u32 = 10 * acc + (c - 48u8) as u32;
        if v > 65536 {
            acc = 65536;
        } else {
            acc = v;
        }
        i = i + 1;
    }
    assert(b@.subrange(start as int, i as int) == d);
    if acc > 65535 {
        None
    } else {
        Some(acc as u16)
    }
}

/// Why `args` starts no scan, or `None` when it starts one. `first` and `third`
/// are the addresses that the second and the fourth word spell, if any.
pub open spec fn arguments_error(args: Seq<String>, first: Option<Address>, third: Option<Address>) -> Option<ArgError> {
    if args.len() < 2 {
        Some(ArgError::InsufficientArguments)
    } else if args.len() > 4 {
        Some(ArgError::ExcessiveArguments)
    } else if first is Some {
        None
    } else {
        let f = word_bytes(args[1]);
        if asks_help(f, args.len() as int) {
            Some(ArgError::Help)
        } else if is_help_flag(f) {
            Some(ArgError::HelpNotExclusive)
        } else if occurs_in(f, jobs_flag()) {
            if args.len() < 4 || third is None {
                Some(ArgError::InvalidAddress)
            } else {
                match parse_u16_spec(word_bytes(args[2])) {
                    Some(t) => if t == 0 { Some(ArgError::InvalidThreadCount) } else { None },
                    None => Some(ArgError::InvalidThreadCount),
                }
            }
        } else {
            Some(ArgError::InvalidSyntax)
        }
    }
}

impl Arguments {
    /// Reads the command line `args`, program name first. `first_addr` is the
    /// address that `args[1]` spells and `third_addr` the one that `args[3]`
    /// spells, `None` where the word is missing or spells none.
    pub fn new(args: &Vec<String>, first_addr: Option<Address>, third_addr: Option<Address>) -> (r: Result<Arguments, ArgError>)
        ensures
            match r {
                Err(e) => arguments_error(args@, first_addr, third_addr) == Some(e),
                Ok(a) => {
                    &&& arguments_error(args@, first_addr, third_addr) is None
                    &&& 1 <= a.threads
                    &&& if first_addr is Some {
                        &&& a.flag@ == Seq::<char>::empty()
                        &&& a.ipaddr == first_addr->0
                        &&& a.threads == DEFAULT_THREADS
                    } else {
                        &&& a.flag@ == args@[1]@
                        &&& Some(a.ipaddr) == third_addr
                        &&& Some(a.threads) == parse_u16_spec(word_bytes(args@[2]))
                    }
                },
            },
    {
        if args.len() < 2 {
            return Err(ArgError::InsufficientArguments);
        } else if args.len() > 4 {
            return Err(ArgError::ExcessiveArguments);
        }
        if let Some(ipaddr) = first_addr {
            return Ok(Arguments { flag: String::new(), ipaddr, threads: DEFAULT_THREADS });
        }
        let f: &[u8] = args[1].as_str().as_bytes();
        let short: Vec<u8> = vec![45u8, 104u8];
        let long: Vec<u8> = vec![45u8, 104u8, 101u8, 108u8, 112u8];
        let jobs: Vec<u8> = vec![45u8, 106u8];
        let has_short = occurs(f, &short);
        let has_long = occurs(f, &long);
        if (has_short || has_long) && args.len() == 2 {
            Err(ArgError::Help)
        } else if has_short || has_long {
            Err(ArgError::HelpNotExclusive)
        } else if occurs(f, &jobs) {
            let ipaddr = match third_addr {
                Some(a) => {
                    if args.len() < 4 {
                        return Err(ArgError::InvalidAddress);
                    }
                    a
                },
                None => return Err(ArgError::InvalidAddress),
            };
            let threads = match parse_u16(args[2].as_str().as_bytes()) {
                Some(t) => t,
                None => return Err(ArgError::InvalidThreadCount),
            };
            if threads == 0 {
                return Err(ArgError::InvalidThreadCount);
            }
            Ok(Arguments { flag: args[1].clone(), ipaddr, threads })
        } else {
            Err(ArgError::InvalidSyntax)
        }
    }
}

} // verus!

//! IPv4 addresses in dotted-decimal form and CIDR ranges (`a.b.c.d/n`).
use vstd::prelude::*;
use crate::text::chars_of;

verus! {

/// The fields of `s` between occurrences of `sep`, in order (what `str::split` yields; there is
/// always at least one field).
pub open spec fn split_on(s: Seq<char>, sep: char) -> Seq<Seq<char>>
    decreases s.len(),
{
    if s.len() == 0 {
        seq![Seq::empty()]
    } else {
        let init = split_on(s.drop_last(), sep);
        if s.last() == sep {
            init.push(Seq::empty())
        } else {
            init.update(init.len() - 1, init.last().push(s.last()))
        }
    }
}

/// An ASCII decimal digit.
pub open spec fn is_digit(c: char) -> bool {
    '0' <= c && c <= '9'
}

/// The value of a string of decimal digits.
pub open spec fn digits_value(s: Seq<char>) -> nat
    decreases s.len(),
{
    if s.len() == 0 {
        0
    } else {
        digits_value(s.drop_last()) * 10 + ((s.last() as nat) - ('0' as nat)) as nat
    }
}

/// A decimal field of one to three digits with no leading zero (other than `0` itself), and its value.
pub open spec fn decimal_field(s: Seq<char>) -> Option<nat> {
    if 1 <= s.len() <= 3 && (forall|i: int| 0 <= i < s.len() ==> is_digit(#[trigger] s[i]))
        && (s.len() == 1 || s[0] != '0') {
        Some(digits_value(s))
    } else {
        None
    }
}

/// A decimal field of at most 255.
pub open spec fn is_octet(s: Seq<char>) -> bool {
    decimal_field(s) is Some && decimal_field(s)->0 <= 255
}

/// The 32-bit value of a dotted-decimal IPv4 address: exactly four fields separated by `.`, each
/// a decimal field of at most 255.
pub open spec fn ipv4_value(s: Seq<char>) -> Option<nat> {
    let f = split_on(s, '.');
    if f.len() == 4 && (forall|i: int| 0 <= i < 4 ==> is_octet(#[trigger] f[i])) {
        Some(
            ((decimal_field(f[0])->0 * 256 + decimal_field(f[1])->0) * 256 + decimal_field(f[2])->0) * 256
                + decimal_field(f[3])->0,
        )
    } else {
        None
    }
}

/// A CIDR range `a.b.c.d/n`: an IPv4 address and a prefix length of at most 32.
pub open spec fn cidr_value(s: Seq<char>) -> Option<(nat, nat)> {
    let f = split_on(s, '/');
    if f.len() == 2 && ipv4_value(f[0]) is Some && decimal_field(f[1]) is Some && decimal_field(f[1])->0 <= 32 {
        Some((ipv4_value(f[0])->0, decimal_field(f[1])->0))
    } else {
        None
    }
}

/// `2` to the power `k`.
pub open spec fn two_pow(k: nat) -> nat
    decreases k,
{
    if k == 0 { 1 } else { 2 * two_pow((k - 1) as nat) }
}

/// `addr` lies in the range whose first `len` bits are those of `net`.
pub open spec fn in_range(addr: nat, net: nat, len: nat) -> bool {
    addr / two_pow((32 - len) as nat) == net / two_pow((32 - len) as nat)
}

/// A blocklist entry covers the client's address: the entry is the address itself, or a CIDR
/// range that contains it.
pub open spec fn entry_covers(entry: Seq<char>, ip: Seq<char>) -> bool {
    ||| entry == ip
    ||| (cidr_value(entry) matches Some((net, len)) && ipv4_value(ip) matches Some(addr) && in_range(addr, net, len))
}

/// A `/32` range holds exactly its own address.
pub proof fn law_full_prefix_is_one_address(addr: nat, net: nat)
    ensures
        in_range(addr, net, 32) <==> addr == net,
{
    assert(two_pow(0) == 1);
    assert(((32 - 32) as nat) == 0nat);
    vstd::arithmetic::div_mod::lemma_div_basics(addr as int);
    vstd::arithmetic::div_mod::lemma_div_basics(net as int);
}

/// A `/0` range holds every IPv4 address.
pub proof fn law_empty_prefix_holds_all(addr: nat, net: nat)
    requires
        addr < 4294967296,
        net < 4294967296,
    ensures
        in_range(addr, net, 0),
{
    reveal_with_fuel(two_pow, 33);
    assert(two_pow(32) == 4294967296);
    assert(((32 - 0) as nat) == 32nat);
    vstd::arithmetic::div_mod::lemma_basic_div(addr as int, 4294967296);
    vstd::arithmetic::div_mod::lemma_basic_div(net as int, 4294967296);
}

/// Every dotted-decimal IPv4 address has a 32-bit value.
pub proof fn law_ipv4_fits_32_bits(s: Seq<char>)
    requires
        ipv4_value(s) is Some,
    ensures
        ipv4_value(s)->0 < 4294967296,
{
    let f = split_on(s, '.');
    assert(is_octet(f[0]) && is_octet(f[1]) && is_octet(f[2]) && is_octet(f[3]));
}

proof fn lemma_two_pow_monotone(k: nat, j: nat)
    requires
        k <= j,
    ensures
        1 <= two_pow(k) <= two_pow(j),
    decreases j,
{
    if j > 0 {
        if k == j {
            lemma_two_pow_monotone((k - 1) as nat, (j - 1) as nat);
        } else {
            lemma_two_pow_monotone(k, (j - 1) as nat);
        }
    }
}

/// The fields of `s` between occurrences of `sep`.
fn split_fields(s: &Vec<char>, sep: char) -> (out: Vec<Vec<char>>)
    ensures
        out@.map_values(|v: Vec<char>| v@) == split_on(s@, sep),
{
    let mut done: Vec<Vec<char>> = Vec::new();
    let mut cur: Vec<char> = Vec::new();
    let mut i: usize = 0;
    assert(s@.take(0) =~= Seq::<char>::empty());
    assert(done@.map_values(|v: Vec<char>| v@).push(cur@) =~= split_on(s@.take(0), sep));
    while i < s.len()
        invariant
            i <= s.len(),
            done@.map_values(|v: Vec<char>| v@).push(cur@) == split_on(s@.take(i as int), sep),
        decreases s.len() - i,
    {
        let c = s[i];
        let ghost before = split_on(s@.take(i as int), sep);
        assert(s@.take(i + 1).drop_last() =~= s@.take(i as int));
        assert(s@.take(i + 1).last() == c);
        if c == sep {
            let full = cur;
            done.push(full);
            cur = Vec::new();
            assert(done@.map_values(|v: Vec<char>| v@).push(cur@) =~= before.push(Seq::empty()));
        } else {
            cur.push(c);
            assert(done@.map_values(|v: Vec<char>| v@).push(cur@) =~= before.update(before.len() - 1, before.last().push(c)));
        }
        i = i + 1;
    }
    assert(s@.take(s.len() as int) =~= s@);
    done.push(cur);
    assert(done@.map_values(|v: Vec<char>| v@) =~= split_on(s@, sep));
    done
}

/// The value of a decimal field, when `f` is one.
fn parse_decimal_field(f: &Vec<char>) -> (r: Option<u32>)
    ensures
        match r {
            Some(v) => decimal_field(f@) == Some(v as nat),
            None => decimal_field(f@) is None,
        },
{
    if f.len() < 1 || f.len() > 3 {
        return None;
    }
    if f.len() > 1 && f[0] == '0' {
        return None;
    }
    let mut v: u32 = 0;
    let mut i: usize = 0;
    while i < f.len()
        invariant
            1 <= f.len() <= 3,
            i <= f.len(),
            v == digits_value(f@.take(i as int)),
            v < if i == 0 { 1nat } else if i == 1 { 10nat } else if i == 2 { 100nat } else { 1000nat },
            forall|j: int| 0 <= j < i ==> is_digit(#[trigger] f@[j]),
        decreases f.len() - i,
    {
        let c = f[i];
        if !('0' <= c && c <= '9') {
            assert(!is_digit(f@[i as int]));
            return None;
        }
        assert(f@.take(i + 1).drop_last() =~= f@.take(i as int));
        let d: u32 = (c as u32) - ('0' as u32);
        v = v * 10 + d;
        i = i + 1;
    }
    assert(f@.take(f.len() as int) =~= f@);
    Some(v)
}

/// The value of the dotted-decimal IPv4 address `cs`, when it is one.
fn parse_ipv4_chars(cs: &Vec<char>) -> (r: Option<u32>)
    ensures
        match r {
            Some(v) => ipv4_value(cs@) == Some(v as nat),
            None => ipv4_value(cs@) is None,
        },
{
    let fields = split_fields(cs, '.');
    let ghost f = split_on(cs@, '.');
    assert(fields@.len() == f.len());
    if fields.len() != 4 {
        return None;
    }
    let mut octets: Vec<u32> = Vec::new();
    let mut i: usize = 0;
    while i < 4
        invariant
            f == split_on(cs@, '.'),
            fields@.map_values(|v: Vec<char>| v@) == f,
            fields@.len() == 4,
            i <= 4,
            octets@.len() == i,
            forall|j: int| 0 <= j < i ==> decimal_field(#[trigger] f[j]) == Some(octets@[j] as nat) && octets@[j] <= 255,
        decreases 4 - i,
    {
        assert(fields@[i as int]@ == f[i as int]);
        match parse_decimal_field(&fields[i]) {
            Some(v) => {
                if v > 255 {
                    assert(!is_octet(f[i as int]));
                    assert(!(forall|j: int| 0 <= j < 4 ==> is_octet(#[trigger] f[j])));
                    return None;
                }
                octets.push(v);
            },
            None => {
                assert(!is_octet(f[i as int]));
                assert(!(forall|j: int| 0 <= j < 4 ==> is_octet(#[trigger] f[j])));
                return None;
            },
        }
        i = i + 1;
    }
    let value: u32 = ((octets[0] * 256 + octets[1]) * 256 + octets[2]) * 256 + octets[3];
    assert(forall|i: int| 0 <= i < 4 ==> is_octet(#[trigger] f[i]));
    Some(value)
}

/// The value of the dotted-decimal IPv4 address `s`, when it is one.
pub fn parse_ipv4(s: &str) -> (r: Option<u32>)
    ensures
        match r {
            Some(v) => ipv4_value(s@) == Some(v as nat),
            None => ipv4_value(s@) is None,
        },
{
    parse_ipv4_chars(&chars_of(s))
}

/// The address and prefix length of the CIDR range `s`, when it is one.
pub fn parse_cidr(s: &str) -> (r: Option<(u32, u32)>)
    ensures
        match r {
            Some((net, len)) => cidr_value(s@) == Some((net as nat, len as nat)),
            None => cidr_value(s@) is None,
        },
{
    let cs = chars_of(s);
    let fields = split_fields(&cs, '/');
    let ghost f = split_on(s@, '/');
    assert(fields@.len() == f.len());
    if fields.len() != 2 {
        return None;
    }
    assert(fields@[0]@ == f[0]);
    assert(fields@[1]@ == f[1]);
    let net = match parse_ipv4_chars(&fields[0]) {
        Some(v) => v,
        None => {
            return None;
        },
    };
    let len = match parse_decimal_field(&fields[1]) {
        Some(n) => n,
        None => {
            return None;
        },
    };
    if len > 32 {
        return None;
    }
    Some((net, len))
}

/// Whether `addr` lies in the range whose first `len` bits (at most 32) are those of `net`.
pub fn range_contains(net: u32, len: u32, addr: u32) -> (b: bool)
    requires
        len <= 32,
    ensures
        b == in_range(addr as nat, net as nat, len as nat),
{
    let k: u32 = 32 - len;
    let mut d: u64 = 1;
    let mut i: u32 = 0;
    proof {
        reveal_with_fuel(two_pow, 33);
        assert(two_pow(32) == 4294967296);
    }
    while i < k
        invariant
            k <= 32,
            i <= k,
            d == two_pow(i as nat),
            two_pow(32) == 4294967296,
        decreases k - i,
    {
        proof {
            lemma_two_pow_monotone((i + 1) as nat, 32);
        }
        d = d * 2;
        i = i + 1;
    }
    proof {
        lemma_two_pow_monotone(0, k as nat);
    }
    (addr as u64) / d == (net as u64) / d
}

/// Whether the blocklist entry `entry` covers a client whose address text is `ip` and whose
/// address value, if `ip` is an IPv4 address, is `addr`.
pub fn entry_covers_address(entry: &str, ip: &str, addr: Option<u32>) -> (b: bool)
    requires
        match addr {
            Some(v) => ipv4_value(ip@) == Some(v as nat),
            None => ipv4_value(ip@) is None,
        },
    ensures
        b == entry_covers(entry@, ip@),
{
    if crate::text::same_text(entry, ip) {
        return true;
    }
    match addr {
        None => false,
        Some(a) => match parse_cidr(entry) {
            Some((net, len)) => range_contains(net, len, a),
            None => false,
        },
    }
}

} // verus!

//! Names a worker presents to the outside: the identity of each pool thread
//! and the transport address of an endpoint.
use vstd::prelude::*;
use vstd::string::*;

verus! {

/// The character of a decimal digit.
pub open spec fn digit_char(d: nat) -> char {
    if d == 0 { '0' }
    else if d == 1 { '1' }
    else if d == 2 { '2' }
    else if d == 3 { '3' }
    else if d == 4 { '4' }
    else if d == 5 { '5' }
    else if d == 6 { '6' }
    else if d == 7 { '7' }
    else if d == 8 { '8' }
    else { '9' }
}

/// The value of a decimal digit character (0 for anything else).
pub open spec fn digit_value(c: char) -> nat {
    if c == '1' { 1 }
    else if c == '2' { 2 }
    else if c == '3' { 3 }
    else if c == '4' { 4 }
    else if c == '5' { 5 }
    else if c == '6' { 6 }
    else if c == '7' { 7 }
    else if c == '8' { 8 }
    else if c == '9' { 9 }
    else { 0 }
}

/// `n` written in decimal, most significant digit first, without leading zeros.
pub open spec fn decimal(n: nat) -> Seq<char>
    decreases n,
{
    if n < 10 {
        seq![digit_char(n)]
    } else {
        decimal(n / 10).push(digit_char(n % 10))
    }
}

/// The number that a string of decimal digits denotes.
pub open spec fn decimal_value(s: Seq<char>) -> nat
    decreases s.len(),
{
    if s.len() == 0 {
        0
    } else {
        decimal_value(s.drop_last()) * 10 + digit_value(s.last())
    }
}

/// The ordinal of a pool thread as it appears in an identity: in decimal,
/// with one leading zero below 10 so that identities sort lexically.
pub open spec fn ordinal_text(n: nat) -> Seq<char> {
    if n < 10 {
        seq!['0'] + decimal(n)
    } else {
        decimal(n)
    }
}

/// `{host}:{service}:{ordinal}`.
pub open spec fn identity_of(host: Seq<char>, service: Seq<char>, ordinal: nat) -> Seq<char> {
    host + seq![':'] + service + seq![':'] + ordinal_text(ordinal)
}

/// The identities of a pool of `n` threads, with ordinals `1..=n`.
pub open spec fn pool_identity_seq(host: Seq<char>, service: Seq<char>, n: nat) -> Seq<Seq<char>> {
    Seq::new(n, |i: int| identity_of(host, service, (i + 1) as nat))
}

/// `tcp://{host}:{port}`.
pub open spec fn tcp_address_of(host: Seq<char>, port: nat) -> Seq<char> {
    seq!['t', 'c', 'p', ':', '/', '/'] + host + seq![':'] + decimal(port)
}

proof fn lemma_digit_roundtrip(d: nat)
    requires
        d < 10,
    ensures
        digit_value(digit_char(d)) == d,
{
}

proof fn lemma_decimal_value(n: nat)
    ensures
        decimal_value(decimal(n)) == n,
    decreases n,
{
    let d = decimal(n);
    lemma_digit_roundtrip(n % 10);
    if n < 10 {
        assert(d.drop_last() =~= Seq::<char>::empty());
        assert(decimal_value(d.drop_last()) == 0);
        assert(d.last() == digit_char(n));
    } else {
        lemma_decimal_value(n / 10);
        assert(d.drop_last() =~= decimal(n / 10));
        assert(d.last() == digit_char(n % 10));
        assert(n == (n / 10) * 10 + n % 10);
    }
    assert(decimal_value(d) == decimal_value(d.drop_last()) * 10 + digit_value(d.last()));
}

proof fn lemma_leading_zero(s: Seq<char>)
    ensures
        decimal_value(seq!['0'] + s) == decimal_value(s),
    decreases s.len(),
{
    let z = seq!['0'] + s;
    if s.len() == 0 {
        assert(z.drop_last() =~= Seq::<char>::empty());
        assert(decimal_value(z.drop_last()) == 0);
        assert(z.last() == '0');
    } else {
        lemma_leading_zero(s.drop_last());
        assert(z.drop_last() =~= seq!['0'] + s.drop_last());
        assert(z.last() == s.last());
    }
    assert(decimal_value(z) == decimal_value(z.drop_last()) * 10 + digit_value(z.last()));
    assert(s.len() > 0 ==> decimal_value(s) == decimal_value(s.drop_last()) * 10 + digit_value(s.last()));
}

proof fn lemma_ordinal_value(n: nat)
    ensures
        decimal_value(ordinal_text(n)) == n,
{
    lemma_decimal_value(n);
    if n < 10 {
        lemma_leading_zero(decimal(n));
    }
}

/// Distinct ordinals are written differently.
pub proof fn lemma_ordinal_text_injective(a: nat, b: nat)
    requires
        a != b,
    ensures
        ordinal_text(a) != ordinal_text(b),
{
    lemma_ordinal_value(a);
    lemma_ordinal_value(b);
}

/// Two identities of one host and service differ when their ordinals do.
pub proof fn lemma_identity_injective(host: Seq<char>, service: Seq<char>, a: nat, b: nat)
    requires
        a != b,
    ensures
        identity_of(host, service, a) != identity_of(host, service, b),
{
    lemma_ordinal_text_injective(a, b);
    let prefix = host + seq![':'] + service + seq![':'];
    let x = identity_of(host, service, a);
    let y = identity_of(host, service, b);
    if x == y {
        assert(x.len() == y.len());
        assert(ordinal_text(a) =~= x.subrange(prefix.len() as int, x.len() as int));
        assert(ordinal_text(b) =~= y.subrange(prefix.len() as int, y.len() as int));
    }
}

/// A pool of `n` threads uses exactly `n` distinct identities, the `i`-th of
/// which is `{host}:{service}:{ordinal}` with ordinal `i + 1`.
pub proof fn lemma_pool_identities_distinct(host: Seq<char>, service: Seq<char>, n: nat)
    ensures
        pool_identity_seq(host, service, n).len() == n,
        pool_identity_seq(host, service, n).no_duplicates(),
        pool_identity_seq(host, service, n).to_set().len() == n,
        forall|i: int|
            0 <= i < n ==> #[trigger] pool_identity_seq(host, service, n)[i] == identity_of(
                host,
                service,
                (i + 1) as nat,
            ),
{
    let ids = pool_identity_seq(host, service, n);
    assert forall|i: int, j: int| 0 <= i < ids.len() && 0 <= j < ids.len() && i != j implies ids[i]
        != ids[j] by {
        lemma_identity_injective(host, service, (i + 1) as nat, (j + 1) as nat);
    }
    ids.unique_seq_to_set();
}

/// The string of one decimal digit.
fn digit_str(d: usize) -> (r: &'static str)
    requires
        d < 10,
    ensures
        r@ == seq![digit_char(d as nat)],
{
    let r = if d == 0 {
        proof { reveal_strlit("0"); }
        "0"
    } else if d == 1 {
        proof { reveal_strlit("1"); }
        "1"
    } else if d == 2 {
        proof { reveal_strlit("2"); }
        "2"
    } else if d == 3 {
        proof { reveal_strlit("3"); }
        "3"
    } else if d == 4 {
        proof { reveal_strlit("4"); }
        "4"
    } else if d == 5 {
        proof { reveal_strlit("5"); }
        "5"
    } else if d == 6 {
        proof { reveal_strlit("6"); }
        "6"
    } else if d == 7 {
        proof { reveal_strlit("7"); }
        "7"
    } else if d == 8 {
        proof { reveal_strlit("8"); }
        "8"
    } else {
        proof { reveal_strlit("9"); }
        "9"
    };
    assert(r@ =~= seq![digit_char(d as nat)]);
    r
}

/// Appends `n` in decimal to `s`.
fn push_decimal(s: &mut String, n: usize)
    ensures
        final(s)@ == old(s)@ + decimal(n as nat),
    decreases n,
{
    if n < 10 {
        s.append(digit_str(n));
    } else {
        push_decimal(s, n / 10);
        s.append(digit_str(n % 10));
        assert(final(s)@ =~= old(s)@ + decimal(n as nat));
    }
}

/// `n` in decimal.
pub fn decimal_text(n: usize) -> (r: String)
    ensures
        r@ == decimal(n as nat),
{
    let mut s = String::new();
    push_decimal(&mut s, n);
    assert(s@ =~= decimal(n as nat));
    s
}

/// The identity of pool thread `ordinal` of `service` on `host`:
/// `{host}:{service}:{ordinal}`, the ordinal zero-padded below 10.
pub fn worker_identity(host: &str, service: &str, ordinal: usize) -> (r: String)
    ensures
        r@ == identity_of(host@, service@, ordinal as nat),
{
    let mut s = host.to_owned();
    s.append(":");
    s.append(service);
    s.append(":");
    if ordinal < 10 {
        s.append("0");
    }
    push_decimal(&mut s, ordinal);
    proof {
        reveal_strlit(":");
        reveal_strlit("0");
    }
    assert(s@ =~= identity_of(host@, service@, ordinal as nat));
    s
}

/// The identities of the threads of a pool of `pool_size`, with ordinals
/// `1..=pool_size`.
pub fn pool_identities(host: &str, service: &str, pool_size: usize) -> (r: Vec<String>)
    ensures
        r@.len() == pool_size,
        forall|i: int| 0 <= i < pool_size ==> #[trigger] r@[i]@ == pool_identity_seq(host@, service@, pool_size as nat)[i],
{
    let mut ids: Vec<String> = Vec::new();
    let mut i: usize = 0;
    while i < pool_size
        invariant
            i <= pool_size,
            ids@.len() == i,
            forall|k: int| 0 <= k < i ==> #[trigger] ids@[k]@ == identity_of(host@, service@, (k + 1) as nat),
        decreases pool_size - i,
    {
        let id = worker_identity(host, service, i + 1);
        ids.push(id);
        i = i + 1;
    }
    ids
}

/// The address of a TCP endpoint: `tcp://{host}:{port}`.
pub fn tcp_address(host: &str, port: usize) -> (r: String)
    ensures
        r@ == tcp_address_of(host@, port as nat),
{
    let mut s = String::new();
    s.append("tcp://");
    s.append(host);
    s.append(":");
    push_decimal(&mut s, port);
    proof {
        reveal_strlit("tcp://");
        reveal_strlit(":");
    }
    assert(s@ =~= tcp_address_of(host@, port as nat));
    s
}

} // verus!

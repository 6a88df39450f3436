//! Pure pieces of testnet configuration handling: the record types read from
//! allocation and validator files, amount parsing, path canonicalisation and
//! the peers line of the consensus configuration. File and network handling
//! stays outside the library; these functions compute from plain values.

use vstd::prelude::*;

verus! {

/// One initial allocation from a testnet allocations file.
#[derive(Debug)]
pub struct TestnetAllocation {
    pub amount: u64,
    pub denom: String,
    pub address: String,
}

/// One funding stream within a testnet validator configuration.
#[derive(Debug)]
pub struct TestnetFundingStream {
    pub rate_bps: u16,
    pub address: String,
}

/// One validator from a testnet validators file.
#[derive(Debug)]
pub struct TestnetValidator {
    pub name: String,
    pub website: String,
    pub description: String,
    pub funding_streams: Vec<TestnetFundingStream>,
    pub sequence_number: u32,
}

/// The characters of `s` with every underscore dropped, in order.
pub open spec fn stripped(s: Seq<char>) -> Seq<char>
    decreases s.len(),
{
    if s.len() == 0 {
        Seq::<char>::empty()
    } else {
        stripped(s.drop_last()) + if s.last() == '_' {
            Seq::<char>::empty()
        } else {
            seq![s.last()]
        }
    }
}

/// Whether every character is a decimal digit.
pub open spec fn all_digits(s: Seq<char>) -> bool {
    forall|i: int| 0 <= i < s.len() ==> '0' <= #[trigger] s[i] <= '9'
}

/// The value of a sequence of decimal digits, most significant first.
pub open spec fn digits_val(s: Seq<char>) -> nat
    decreases s.len(),
{
    if s.len() == 0 {
        0
    } else {
        digits_val(s.drop_last()) * 10 + (s.last() as int - '0' as int) as nat
    }
}

/// The value of a digit string never shrinks as digits are appended.
proof fn lemma_digits_val_prefix(s: Seq<char>, i: int)
    requires
        0 <= i <= s.len(),
    ensures
        digits_val(s.subrange(0, i)) <= digits_val(s),
    decreases s.len() - i,
{
    if i < s.len() {
        lemma_digits_val_prefix(s, i + 1);
        assert(s.subrange(0, i + 1).drop_last() =~= s.subrange(0, i));
        assert(digits_val(s.subrange(0, i)) <= digits_val(s.subrange(0, i + 1)));
    } else {
        assert(s.subrange(0, i) =~= s);
    }
}

/// The digit part of an amount: a single leading plus sign carries no value
/// and is set aside.
pub open spec fn unsigned_digits(s: Seq<char>) -> Seq<char> {
    if s.len() > 0 && s[0] == '+' {
        s.skip(1)
    } else {
        s
    }
}

/// Parse a decimal amount that may contain underscores as visual separators,
/// as allocation files write it. Underscores are dropped; what remains must
/// be one or more decimal digits, after at most one leading plus sign, whose
/// value fits, or nothing is returned.
pub fn parse_u64_with_underscores(s: &str) -> (r: Option<u64>)
    ensures
        match r {
            Some(n) => {
                &&& unsigned_digits(stripped(s@)).len() > 0
                &&& all_digits(unsigned_digits(stripped(s@)))
                &&& digits_val(unsigned_digits(stripped(s@))) == n
            },
            None => !(unsigned_digits(stripped(s@)).len() > 0 && all_digits(
                unsigned_digits(stripped(s@)),
            ) && digits_val(unsigned_digits(stripped(s@))) <= u64::MAX),
        },
{
    let n = s.unicode_len();
    let mut digits: Vec<char> = Vec::new();
    let mut i: usize = 0;
    while i < n
        invariant
            0 <= i <= n == s@.len(),
            digits@ == stripped(s@.subrange(0, i as int)),
        decreases n - i,
    {
        let c = s.get_char(i);
        proof {
            assert(s@.subrange(0, i as int + 1).drop_last() =~= s@.subrange(0, i as int));
            assert(s@.subrange(0, i as int + 1).last() == c);
        }
        if c != '_' {
            digits.push(c);
        }
        i = i + 1;
    }
    proof {
        assert(s@.subrange(0, n as int) =~= s@);
    }
    if digits.len() == 0 {
        return None;
    }
    let start: usize = if digits[0] == '+' {
        1
    } else {
        0
    };
    let m = digits.len();
    if m == start {
        // a lone plus sign carries no digits
        return None;
    }
    let ghost ud = unsigned_digits(digits@);
    proof {
        assert(ud =~= digits@.subrange(start as int, m as int));
    }
    let mut acc: u64 = 0;
    let mut j: usize = start;
    while j < m
        invariant
            start <= j <= m == digits@.len(),
            digits@ == stripped(s@),
            ud == unsigned_digits(stripped(s@)),
            ud == digits@.subrange(start as int, m as int),
            all_digits(ud.subrange(0, j - start)),
            acc == digits_val(ud.subrange(0, j - start)),
        decreases m - j,
    {
        let c = digits[j];
        if !('0' <= c && c <= '9') {
            proof {
                assert(ud[(j - start) as int] == c);
                assert(!all_digits(ud));
            }
            return None;
        }
        let d: u32 = c as u32 - '0' as u32;
        proof {
            assert(ud.subrange(0, (j - start) as int + 1).drop_last() =~= ud.subrange(
                0,
                (j - start) as int,
            ));
            assert(ud.subrange(0, (j - start) as int + 1).last() == c);
        }
        if acc > (u64::MAX - d as u64) / 10 {
            proof {
                lemma_digits_val_prefix(ud, (j - start) as int + 1);
                assert(digits_val(ud.subrange(0, (j - start) as int + 1)) == acc * 10 + d);
            }
            return None;
        }
        acc = acc * 10 + d as u64;
        j = j + 1;
    }
    proof {
        assert(ud.subrange(0, (m - start) as int) =~= ud);
    }
    Some(acc)
}

/// The canonical form of a path string, given the user's home directory and
/// the current working directory: an absolute path is kept as it is, a
/// leading lone tilde is replaced by the home directory, and anything else
/// is taken relative to the working directory.
pub fn canonicalize_path_with(input: &str, home: &str, cwd: &str) -> (r: String)
    ensures
        r@ == canonical_path(input@, home@, cwd@),
{
    let n = input.unicode_len();
    if n > 0 && input.get_char(0) == '/' {
        let mut out = String::new();
        out.append(input);
        proof {
            assert(out@ =~= canonical_path(input@, home@, cwd@));
        }
        out
    } else if n == 1 && input.get_char(0) == '~' {
        let mut out = String::new();
        out.append(home);
        proof {
            assert(input@.skip(1) =~= Seq::<char>::empty());
            assert(out@ =~= canonical_path(input@, home@, cwd@));
        }
        out
    } else if n >= 2 && input.get_char(0) == '~' && input.get_char(1) == '/' {
        let mut out = String::new();
        out.append(home);
        let rest = input.substring_char(1, n);
        out.append(rest);
        proof {
            assert(out@ =~= canonical_path(input@, home@, cwd@));
        }
        out
    } else {
        let mut out = String::new();
        out.append(cwd);
        out.append("/");
        out.append(input);
        proof {
            reveal_strlit("/");
            assert(out@ =~= canonical_path(input@, home@, cwd@));
        }
        out
    }
}

/// What path canonicalisation returns: see [`canonicalize_path_with`].
pub open spec fn canonical_path(input: Seq<char>, home: Seq<char>, cwd: Seq<char>) -> Seq<char> {
    if input.len() > 0 && input[0] == '/' {
        input
    } else if input.len() >= 1 && input[0] == '~' && (input.len() == 1 || input[1] == '/') {
        home + input.skip(1)
    } else {
        cwd + seq!['/'] + input
    }
}

/// The persistent-peers line of a consensus configuration: each peer as
/// `identifier@address:26656`, joined with commas.
pub open spec fn peers_line(ps: Seq<(String, String)>) -> Seq<char>
    decreases ps.len(),
{
    if ps.len() == 0 {
        Seq::<char>::empty()
    } else if ps.len() == 1 {
        peer_entry(ps[0].0@, ps[0].1@)
    } else {
        peers_line(ps.drop_last()) + seq![','] + peer_entry(ps.last().0@, ps.last().1@)
    }
}

/// One peer of the persistent-peers line.
pub open spec fn peer_entry(id: Seq<char>, ip: Seq<char>) -> Seq<char> {
    id + seq!['@'] + ip + ":26656"@
}

/// Render the persistent-peers line from (identifier, address) pairs.
pub fn format_peers_line(peers: &Vec<(String, String)>) -> (r: String)
    ensures
        r@ == peers_line(peers@),
{
    let mut out = String::new();
    let mut i: usize = 0;
    let n = peers.len();
    while i < n
        invariant
            0 <= i <= n == peers@.len(),
            out@ == peers_line(peers@.subrange(0, i as int)),
        decreases n - i,
    {
        if i > 0 {
            out.append(",");
        }
        let pair = &peers[i];
        out.append(pair.0.as_str());
        out.append("@");
        out.append(pair.1.as_str());
        out.append(":26656");
        proof {
            let sub = peers@.subrange(0, i as int + 1);
            assert(sub.drop_last() =~= peers@.subrange(0, i as int));
            assert(sub.last() == peers@[i as int]);
            reveal_strlit(",");
            reveal_strlit("@");
            reveal_strlit(":26656");
            assert(out@ =~= peers_line(peers@.subrange(0, i as int + 1)));
        }
        i = i + 1;
    }
    proof {
        assert(peers@.subrange(0, n as int) =~= peers@);
    }
    out
}

/// The initial consensus state every new validator starts from.
pub open spec fn validator_state() -> Seq<char> {
    "{\n    \"height\": \"0\",\n    \"round\": 0,\n    \"step\": 0\n}\n"@
}

/// The initial private validator state file contents, fixed for every new
/// node.
pub fn get_validator_state() -> (r: String)
    ensures
        r@ == validator_state(),
{
    let mut out = String::new();
    out.append("{\n    \"height\": \"0\",\n    \"round\": 0,\n    \"step\": 0\n}\n");
    proof {
        assert(out@ =~= validator_state());
    }
    out
}

} // verus!

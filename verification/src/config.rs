//! Startup configuration: the port and the document root, taken from the
//! command-line words with fixed defaults, and a decimal port parser.

use vstd::prelude::*;

use crate::decimal::dec_val;
use crate::decimal::digit_val;
use crate::decimal::is_digit;
use crate::text::eq_str;

verus! {

/// The immutable server configuration: the port to bind and the document
/// root every request path is resolved under. Constructed once; shared
/// read-only with every worker.
pub struct Config {
    pub port: u16,
    pub path: String,
}

/// The one failure of configuration parsing: a port word that is not a
/// decimal number a `u16` can hold.
#[derive(PartialEq, Eq, Structural, Clone, Copy, Debug)]
pub enum ConfigError {
    InvalidPort,
}

/// The digits of `s` after an optional leading `'+'`.
pub open spec fn spec_u16_digits(s: Seq<char>) -> Seq<char> {
    if s.len() >= 1 && s[0] == '+' {
        s.subrange(1, s.len() as int)
    } else {
        s
    }
}

/// Whether `s` is text `u16` parsing accepts: an optional `'+'`, then at
/// least one decimal digit, denoting a value of at most `u16::MAX`.
pub open spec fn valid_u16_text(s: Seq<char>) -> bool {
    let d = spec_u16_digits(s);
    d.len() > 0 && (forall|i: int| 0 <= i < d.len() ==> is_digit(d[i])) && dec_val(d) <= 65535
}

/// Parse a decimal `u16`, as `str::parse::<u16>` does: an optional
/// leading `'+'`, then one or more digits, rejected when empty, when any
/// character is not a digit, or when the value exceeds `u16::MAX`.
pub fn parse_u16(s: &str) -> (r: Option<u16>)
    ensures
        r is Some <==> valid_u16_text(s@),
        r matches Some(v) ==> v as nat == dec_val(spec_u16_digits(s@)),
{
    let slen = s.unicode_len();
    let start: usize = if slen >= 1 && s.get_char(0) == '+' {
        1
    } else {
        0
    };
    assert(spec_u16_digits(s@) =~= s@.subrange(start as int, slen as int));
    if start >= slen {
        return None;
    }
    let mut acc: u32 = 0;
    let mut i: usize = start;
    while i < slen
        invariant
            slen == s@.len(),
            start <= i <= slen,
            start < slen,
            spec_u16_digits(s@) == s@.subrange(start as int, slen as int),
            acc <= 65535,
            forall|k: int| start <= k < i ==> is_digit(s@[k]),
            acc as nat == dec_val(s@.subrange(start as int, i as int)),
        decreases slen - i,
    {
        let c = s.get_char(i);
        let u = c as u32;
        if u < 48 || u > 57 {
            proof {
                assert(!is_digit(s@[i as int]));
                assert(spec_u16_digits(s@)[i - start] == s@[i as int]);
                lemma_not_valid_by_nondigit(s@, i - start);
            }
            return None;
        }
        assert(is_digit(s@[i as int]) && digit_val(s@[i as int]) == u - 48);
        let next: u32 = acc * 10 + (u - 48);
        proof {
            let pre = s@.subrange(start as int, i as int);
            let post = s@.subrange(start as int, i + 1 as int);
            assert(post.drop_last() =~= pre);
            assert(post.last() == s@[i as int]);
        }
        if next > 65535 {
            proof {
                let pre = s@.subrange(start as int, i as int);
                let post = s@.subrange(start as int, i + 1 as int);
                assert(dec_val(post) == dec_val(pre) * 10 + digit_val(post.last()));
                assert(dec_val(post) == next);
                assert(post =~= spec_u16_digits(s@).subrange(0, i + 1 - start));
                lemma_dec_val_prefix_bound(spec_u16_digits(s@), (i + 1 - start) as int);
                assert(dec_val(spec_u16_digits(s@)) >= dec_val(post));
                lemma_not_valid_by_overflow(s@);
            }
            return None;
        }
        acc = next;
        i = i + 1;
    }
    proof {
        let d = spec_u16_digits(s@);
        assert(d =~= s@.subrange(start as int, slen as int));
        assert(forall|k: int| 0 <= k < d.len() ==> is_digit(#[trigger] d[k]));
    }
    Some(acc as u16)
}

/// A non-digit character anywhere among the digits refutes validity.
proof fn lemma_not_valid_by_nondigit(s: Seq<char>, k: int)
    requires
        0 <= k < spec_u16_digits(s).len(),
        !is_digit(spec_u16_digits(s)[k]),
    ensures
        !valid_u16_text(s),
{
    if valid_u16_text(s) {
        assert(is_digit(spec_u16_digits(s)[k]));
    }
}

/// A denoted value beyond `u16::MAX` refutes validity.
proof fn lemma_not_valid_by_overflow(s: Seq<char>)
    requires
        dec_val(spec_u16_digits(s)) > 65535,
    ensures
        !valid_u16_text(s),
{
}

/// The value a digit string denotes is at least the value of any of its
/// prefixes, so a prefix that already exceeds a bound decides rejection.
proof fn lemma_dec_val_prefix_bound(d: Seq<char>, n: int)
    requires
        0 <= n <= d.len(),
    ensures
        dec_val(d.subrange(0, n)) <= dec_val(d),
    decreases d.len() - n,
{
    if n == d.len() {
        assert(d.subrange(0, n) =~= d);
    } else {
        lemma_dec_val_prefix_bound(d, n + 1);
        let p = d.subrange(0, n);
        let q = d.subrange(0, n + 1);
        assert(q.drop_last() =~= p);
        assert(dec_val(q) == dec_val(p) * 10 + digit_val(q.last()));
        assert(dec_val(p) <= dec_val(p) * 10) by {
            assert(dec_val(p) * 10 == dec_val(p) + dec_val(p) * 9);
        }
    }
}

/// Whether `w` is one of the words that name the document root.
pub open spec fn is_dir_flag(w: Seq<char>) -> bool {
    ||| w == "--dir"@
    ||| w == "--path"@
    ||| w == "--public-dir"@
    ||| w == "--public-path"@
}

/// The document root after scanning the first `n` words: the last word
/// among them that is a root-naming word, or the default `./public`.
pub open spec fn spec_path_after(args: Seq<Seq<char>>, n: int) -> Seq<char>
    decreases n,
{
    if n <= 0 {
        "./public"@
    } else if is_dir_flag(args[n - 1]) {
        args[n - 1]
    } else {
        spec_path_after(args, n - 1)
    }
}

impl Config {
    /// Build the configuration from the command-line words. The defaults
    /// are port `8080` and root `./public`; they stand untouched when
    /// fewer than two words are given. Otherwise every word is scanned:
    /// each root-naming word (`--dir`, `--path`, `--public-dir`,
    /// `--public-path`) replaces the root with that word itself, and the
    /// word `--port` is itself fed to the port parser — which no word
    /// spelled `--port` can satisfy, so any occurrence of it is refused
    /// as an invalid port.
    pub fn new(args: &Vec<String>) -> (r: Result<Config, ConfigError>)
        ensures
            ({
                let vs = args.deep_view();
                if vs.len() >= 2 && (exists|i: int| 0 <= i < vs.len() && vs[i] == "--port"@) {
                    r == Err::<Config, ConfigError>(ConfigError::InvalidPort)
                } else {
                    r matches Ok(c) && c.port == 8080 && c.path@ == (if vs.len() >= 2 {
                        spec_path_after(vs, vs.len() as int)
                    } else {
                        "./public"@
                    })
                }
            }),
    {
        let ghost vs = args.deep_view();
        let mut port: u16 = 8080;
        let mut path: String = String::from_str("./public");

        if args.len() >= 2 {
            let mut i: usize = 0;
            while i < args.len()
                invariant
                    vs == args.deep_view(),
                    vs.len() == args@.len(),
                    vs.len() >= 2,
                    0 <= i <= args@.len(),
                    port == 8080,
                    forall|k: int| 0 <= k < i ==> vs[k] != "--port"@,
                    path@ == spec_path_after(vs, i as int),
                decreases args@.len() - i,
            {
                proof {
                    assert(vs[i as int] == args@[i as int]@);
                }
                let item: &String = &args[i];
                if eq_str(item.as_str(), "--port") {
                    match parse_u16(item.as_str()) {
                        Some(v) => {
                            proof {
                                reveal_strlit("--port");
                                assert(!is_digit(item@[0]));
                                assert(spec_u16_digits(item@)[0] == item@[0]);
                                assert(!valid_u16_text(item@));
                            }
                            port = v;
                        },
                        None => {
                            proof {
                                assert(vs[i as int] == "--port"@);
                                assert(exists|k: int|
                                    0 <= k < vs.len() && vs[k] == "--port"@);
                            }
                            return Err(ConfigError::InvalidPort);
                        },
                    }
                }
                if eq_str(item.as_str(), "--dir") || eq_str(item.as_str(), "--path") || eq_str(
                    item.as_str(),
                    "--public-dir",
                ) || eq_str(item.as_str(), "--public-path") {
                    path = item.clone();
                }
                i = i + 1;
            }
        }

        Ok(Config { port, path })
    }
}

} // verus!

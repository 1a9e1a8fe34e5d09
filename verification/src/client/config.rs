//! The settings of the client.

use crate::text::dec_text;
use crate::text::framed;
use crate::text::numbered;
use crate::text::parse_number;
use crate::text::parsed_number;
use vstd::prelude::*;
use vstd::string::*;

verus! {

/// The most hops of a circuit.
pub const MAX_HOPS: usize = 10;

/// The settings of the client.
#[derive(Debug)]
pub struct TorClientConfig {
    /// Where the proxy listens, as host and port.
    pub socks_addr: String,
    /// Where the directory is.
    pub directory_url: String,
    /// How many circuits are kept open.
    pub pool_size: usize,
    /// How many relays a circuit has.
    pub hops: usize,
    /// Whether to show the dashboard in the terminal.
    pub tui: bool,
    /// After how many failures in a row a circuit is given up.
    pub max_rebuild_attempts: usize,
}

/// The settings of the client.
#[verifier::ext_equal]
pub struct TorClientConfigView {
    pub socks_addr: Seq<char>,
    pub directory_url: Seq<char>,
    pub pool_size: usize,
    pub hops: usize,
    pub tui: bool,
    pub max_rebuild_attempts: usize,
}

impl View for TorClientConfig {
    type V = TorClientConfigView;

    open spec fn view(&self) -> TorClientConfigView {
        TorClientConfigView {
            socks_addr: self.socks_addr@,
            directory_url: self.directory_url@,
            pool_size: self.pool_size,
            hops: self.hops,
            tui: self.tui,
            max_rebuild_attempts: self.max_rebuild_attempts,
        }
    }
}

/// The complaint about a text that is no number.
pub open spec fn no_integer(s: Seq<char>) -> Seq<char> {
    "'"@ + s + "' is not a valid integer"@
}

/// The number of attempts that `s` stands for, or the complaint about it.
pub open spec fn rebuild_attempts(s: Seq<char>) -> Result<nat, Seq<char>> {
    match parsed_number(s, usize::MAX as nat) {
        None => Err(no_integer(s)),
        Some(n) => if n < 1 {
            Err("max-rebuild-attempts must be >= 1, got "@ + dec_text(n))
        } else {
            Ok(n)
        },
    }
}

/// The number of hops that `s` stands for, or the complaint about it.
pub open spec fn hop_count(s: Seq<char>) -> Result<nat, Seq<char>> {
    match parsed_number(s, usize::MAX as nat) {
        None => Err(no_integer(s)),
        Some(n) => if n < 3 {
            Err("hops must be >= 3 (1 entry + N-2 middles + 1 exit), got "@ + dec_text(n))
        } else if n > MAX_HOPS {
            Err("hops must be <= 10 (maximum circuit size), got "@ + dec_text(n))
        } else {
            Ok(n)
        },
    }
}

/// Reads how many failures in a row a circuit is allowed: at least one.
pub fn parse_rebuild_attempts(s: &str) -> (r: Result<usize, String>)
    ensures
        match r {
            Ok(n) => rebuild_attempts(s@) == Ok::<nat, Seq<char>>(n as nat),
            Err(e) => rebuild_attempts(s@) == Err::<nat, Seq<char>>(e@),
        },
{
    match parse_number(s, usize::MAX as u64) {
        None => Err(framed("'", s, "' is not a valid integer")),
        Some(n) => if n < 1 {
            Err(numbered("max-rebuild-attempts must be >= 1, got ", n))
        } else {
            Ok(n as usize)
        },
    }
}

/// Reads how many hops a circuit has: from three to the most.
pub fn parse_hop_count(s: &str) -> (r: Result<usize, String>)
    ensures
        match r {
            Ok(n) => hop_count(s@) == Ok::<nat, Seq<char>>(n as nat),
            Err(e) => hop_count(s@) == Err::<nat, Seq<char>>(e@),
        },
{
    match parse_number(s, usize::MAX as u64) {
        None => Err(framed("'", s, "' is not a valid integer")),
        Some(n) => if n < 3 {
            Err(numbered("hops must be >= 3 (1 entry + N-2 middles + 1 exit), got ", n))
        } else if n > MAX_HOPS as u64 {
            Err(numbered("hops must be <= 10 (maximum circuit size), got ", n))
        } else {
            Ok(n as usize)
        },
    }
}

/// What the command line says of the settings.
#[derive(Debug)]
pub struct ClientOptions {
    pub socks_addr: Option<String>,
    pub directory_url: Option<String>,
    pub pool_size: Option<usize>,
    pub hops: Option<String>,
    pub tui: bool,
    pub max_rebuild_attempts: Option<String>,
}

/// The text that was given, or the one that stands for it.
pub open spec fn given_or(given: Option<String>, default: Seq<char>) -> Seq<char> {
    match given {
        Some(s) => s@,
        None => default,
    }
}

fn take_or(given: Option<String>, default: &str) -> (r: String)
    ensures
        r@ == given_or(given, default@),
{
    match given {
        Some(s) => s,
        None => default.to_owned(),
    }
}

/// The settings that the command line stands for, or the first complaint about it.
pub open spec fn settings_of(options: ClientOptions) -> Result<TorClientConfigView, Seq<char>> {
    match hop_count(given_or(options.hops, "3"@)) {
        Err(e) => Err(e),
        Ok(hops) => match rebuild_attempts(given_or(options.max_rebuild_attempts, "3"@)) {
            Err(e) => Err(e),
            Ok(attempts) => Ok(
                TorClientConfigView {
                    socks_addr: given_or(options.socks_addr, "127.0.0.1:1080"@),
                    directory_url: given_or(options.directory_url, "http://localhost:8080"@),
                    pool_size: match options.pool_size {
                        Some(n) => n,
                        None => 3,
                    },
                    hops: hops as usize,
                    tui: options.tui,
                    max_rebuild_attempts: attempts as usize,
                },
            ),
        },
    }
}

impl TorClientConfig {
    /// The settings from the command line: what is not said there has its default. A number of
    /// hops or of attempts that is refused is complained about, the hops first.
    pub fn from_options(options: ClientOptions) -> (r: Result<Self, String>)
        ensures
            ({
                let hops = hop_count(given_or(options.hops, "3"@));
                let attempts = rebuild_attempts(given_or(options.max_rebuild_attempts, "3"@));
                match r {
                    Ok(config) => {
                        &&& hops is Ok
                        &&& attempts is Ok
                        &&& config@ == (TorClientConfigView {
                            socks_addr: given_or(options.socks_addr, "127.0.0.1:1080"@),
                            directory_url: given_or(
                                options.directory_url,
                                "http://localhost:8080"@,
                            ),
                            pool_size: match options.pool_size {
                                Some(n) => n,
                                None => 3,
                            },
                            hops: hops->Ok_0 as usize,
                            tui: options.tui,
                            max_rebuild_attempts: attempts->Ok_0 as usize,
                        })
                    },
                    Err(e) => {
                        ||| hops is Err && e@ == hops->Err_0
                        ||| hops is Ok && attempts is Err && e@ == attempts->Err_0
                    },
                }
            }),
            match r {
                Ok(config) => settings_of(options) == Ok::<TorClientConfigView, Seq<char>>(config@),
                Err(e) => settings_of(options) == Err::<TorClientConfigView, Seq<char>>(e@),
            },
    {
        let hops = match parse_hop_count(take_or(options.hops, "3").as_str()) {
            Ok(n) => n,
            Err(e) => return Err(e),
        };
        let max_rebuild_attempts = match parse_rebuild_attempts(
            take_or(options.max_rebuild_attempts, "3").as_str(),
        ) {
            Ok(n) => n,
            Err(e) => return Err(e),
        };
        Ok(
            Self {
                socks_addr: take_or(options.socks_addr, "127.0.0.1:1080"),
                directory_url: take_or(options.directory_url, "http://localhost:8080"),
                pool_size: match options.pool_size {
                    Some(n) => n,
                    None => 3,
                },
                hops,
                tui: options.tui,
                max_rebuild_attempts,
            },
        )
    }
}

/// Whether circuits of this many hops are the longest there are.
pub open spec fn is_longest(hops: int) -> bool {
    hops == MAX_HOPS
}

/// Whether the user is asked before circuits of this many hops are built.
pub fn needs_confirmation(hops: usize) -> (r: bool)
    ensures
        r == (hops == MAX_HOPS),
        r == is_longest(hops as int),
{
    hops == MAX_HOPS
}

/// The numerals of exactly the numbers from three to the most are taken as numbers of hops.
pub proof fn hop_counts_are_bounded(n: nat)
    requires
        n <= usize::MAX,
    ensures
        hop_count(dec_text(n)) is Ok <==> 3 <= n <= MAX_HOPS,
        hop_count(dec_text(n)) is Ok ==> hop_count(dec_text(n))->Ok_0 == n,
{
    crate::text::numerals_read_back(n, usize::MAX as nat);
}

/// Every numeral of a number of at least one is taken as a number of attempts, and stands for that
/// number; a numeral of zero is refused. Numbers of hops go from three to ten.
pub proof fn numbers_of_attempts_and_hops(n: nat)
    requires
        n <= usize::MAX,
    ensures
        rebuild_attempts(dec_text(n)) is Ok <==> n >= 1,
        n >= 1 ==> rebuild_attempts(dec_text(n))->Ok_0 == n,
        hop_count(dec_text(n)) is Ok <==> 3 <= n <= 10,
        3 <= n <= 10 ==> hop_count(dec_text(n))->Ok_0 == n,
{
    crate::text::numerals_read_back(n, usize::MAX as nat);
}

/// A text that holds anything but digits, behind its first character, is no number of hops and no
/// number of attempts, and neither is the empty text.
pub proof fn other_texts_are_refused(s: Seq<char>, i: int)
    requires
        s.len() == 0 || (0 < i < s.len() && !('0' <= s[i] && s[i] <= '9')),
    ensures
        rebuild_attempts(s) is Err,
        hop_count(s) is Err,
{
    crate::text::only_digits_make_a_number(s, usize::MAX as nat);
}

/// What the command line says is what is set, and what it leaves out has its default: three circuits
/// of three hops, given up after three failures, a proxy on port 1080 and a directory on port 8080 of
/// the same machine. A circuit always has three to ten hops and is allowed one failure at least.
pub proof fn the_command_line_is_followed(options: ClientOptions)
    ensures
        settings_of(options) matches Ok(config) ==> {
            &&& 3 <= config.hops <= 10
            &&& config.max_rebuild_attempts >= 1
            &&& config.tui == options.tui
            &&& options.socks_addr matches Some(s) ==> config.socks_addr == s@
            &&& options.socks_addr is None ==> config.socks_addr == "127.0.0.1:1080"@
            &&& options.directory_url matches Some(s) ==> config.directory_url == s@
            &&& options.directory_url is None ==> config.directory_url == "http://localhost:8080"@
            &&& options.pool_size matches Some(n) ==> config.pool_size == n
            &&& options.pool_size is None ==> config.pool_size == 3
            &&& options.hops matches Some(s) ==> parsed_number(s@, usize::MAX as nat) == Some(
                config.hops as nat,
            )
            &&& options.hops is None ==> config.hops == 3
            &&& options.max_rebuild_attempts matches Some(s) ==> parsed_number(
                s@,
                usize::MAX as nat,
            ) == Some(config.max_rebuild_attempts as nat)
            &&& options.max_rebuild_attempts is None ==> config.max_rebuild_attempts == 3
        },
        options.hops is None && options.max_rebuild_attempts is None ==> settings_of(
            options,
        ) is Ok,
{
    reveal_strlit("3");
    assert("3"@ =~= dec_text(3));
    crate::text::numerals_read_back(3, usize::MAX as nat);
}

/// The longest circuits are those with the most hops that are taken: any longer one is refused, and
/// they are not.
pub proof fn the_longest_circuits_are_taken(n: nat)
    requires
        n <= usize::MAX,
    ensures
        is_longest(n as int) <==> hop_count(dec_text(n)) is Ok && (forall|m: nat|
            n < m <= usize::MAX ==> #[trigger] hop_count(dec_text(m)) is Err),
{
    hop_counts_are_bounded(n);
    assert forall|m: nat| n < m <= usize::MAX && n >= 10 implies #[trigger] hop_count(
        dec_text(m),
    ) is Err by {
        hop_counts_are_bounded(m);
    }
    if hop_count(dec_text(n)) is Ok && n < 10 {
        hop_counts_are_bounded(10);
        assert(hop_count(dec_text(10)) is Ok);
    }
}

}

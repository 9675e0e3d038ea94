//! The decisions of the command line that stand between its reads and its runs: which
//! clusters a program can be deployed to, when a deployment must be confirmed, what
//! counts as a yes, the arguments of the commands it starts, and which changes a watch
//! rebuilds on.

use vstd::prelude::*;
use crate::chars::{ascii_to_lower, is_whitespace, to_ascii_lower};
use crate::formatter::{trim, trim_end, trim_start};
use crate::text::{chars_of, str_eq};

verus! {

/// The clusters a program can be deployed to.
pub open spec fn cluster_names() -> Seq<Seq<char>> {
    seq!["localnet"@, "devnet"@, "testnet"@, "mainnet-beta"@]
}

/// Whether a cluster is one a program can be deployed to.
pub fn is_valid_cluster(cluster: &str) -> (b: bool)
    ensures
        b == cluster_names().contains(cluster@),
{
    let b = str_eq(cluster, "localnet") || str_eq(cluster, "devnet") || str_eq(cluster, "testnet") || str_eq(
        cluster,
        "mainnet-beta",
    );
    proof {
        let names = cluster_names();
        if b {
            if cluster@ == "localnet"@ {
                assert(names[0] == cluster@);
            } else if cluster@ == "devnet"@ {
                assert(names[1] == cluster@);
            } else if cluster@ == "testnet"@ {
                assert(names[2] == cluster@);
            } else {
                assert(names[3] == cluster@);
            }
        } else {
            assert forall|k: int| 0 <= k < names.len() implies names[k] != cluster@ by {
                assert(names[0] == "localnet"@);
                assert(names[1] == "devnet"@);
                assert(names[2] == "testnet"@);
                assert(names[3] == "mainnet-beta"@);
            }
        }
    }
    b
}

/// Whether a deployment asks for confirmation: everywhere but on the local cluster,
/// unless it was told not to.
pub fn needs_confirmation(cluster: &str, skip_confirm: bool) -> (b: bool)
    ensures
        b == (!skip_confirm && cluster@ != "localnet"@),
{
    !skip_confirm && !str_eq(cluster, "localnet")
}

/// Whether an answer to the confirmation is a yes: `y` in either case, with white space
/// around it.
pub open spec fn is_yes(answer: Seq<char>) -> bool {
    let t = trim(answer);
    t.len() == 1 && ascii_to_lower(t[0]) == 'y'
}

/// Whether an answer to the confirmation is a yes.
pub fn confirmed(answer: &str) -> (b: bool)
    ensures
        b == is_yes(answer@),
{
    let cs = chars_of(answer);
    let mut a: usize = 0;
    proof {
        assert(cs@.skip(0) =~= cs@);
    }
    while a < cs.len() && is_whitespace(cs[a])
        invariant
            a <= cs@.len(),
            cs@ == answer@,
            trim_start(answer@) == trim_start(cs@.skip(a as int)),
        decreases cs@.len() - a,
    {
        proof {
            assert(cs@.skip(a as int).drop_first() =~= cs@.skip(a + 1));
        }
        a = a + 1;
    }
    proof {
        assert(trim_start(answer@) == cs@.skip(a as int));
        assert(cs@.subrange(a as int, cs@.len() as int) =~= cs@.skip(a as int));
    }
    let mut b: usize = cs.len();
    while b > a && is_whitespace(cs[b - 1])
        invariant
            a <= b <= cs@.len(),
            cs@ == answer@,
            trim(answer@) == trim_end(cs@.subrange(a as int, b as int)),
        decreases b - a,
    {
        proof {
            assert(cs@.subrange(a as int, b as int).drop_last() =~= cs@.subrange(a as int, b - 1));
        }
        b = b - 1;
    }
    proof {
        assert(trim_end(cs@.subrange(a as int, b as int)) == cs@.subrange(a as int, b as int));
    }
    b - a == 1 && to_ascii_lower(cs[a]) == 'y'
}

/// The arguments of `anchor` that deploy to a cluster, with the wallet where one is
/// given.
pub fn deploy_args(cluster: &str, keypair: &Option<String>) -> (r: Vec<String>)
    ensures
        r@.map_values(|s: String| s@) == seq!["deploy"@, "--provider.cluster"@, cluster@] + match *keypair {
            Some(k) => seq!["--provider.wallet"@, k@],
            None => Seq::<Seq<char>>::empty(),
        },
{
    let mut r: Vec<String> = Vec::new();
    r.push("deploy".to_owned());
    r.push("--provider.cluster".to_owned());
    r.push(cluster.to_owned());
    match keypair {
        Some(k) => {
            r.push("--provider.wallet".to_owned());
            r.push(k.clone());
        },
        None => {},
    }
    proof {
        assert(r@.map_values(|s: String| s@) =~= seq!["deploy"@, "--provider.cluster"@, cluster@] + match *keypair {
            Some(k) => seq!["--provider.wallet"@, k@],
            None => Seq::<Seq<char>>::empty(),
        });
    }
    r
}

/// The arguments of `cargo` that run the generated tests: only those that match the
/// filter where one is given, with their output shown where asked.
pub fn test_args(filter: &Option<String>, verbose: bool) -> (r: Vec<String>)
    ensures
        r@.map_values(|s: String| s@) == seq!["test"@] + (match *filter {
            Some(f) => seq![f@],
            None => Seq::<Seq<char>>::empty(),
        }) + (if verbose { seq!["--"@, "--nocapture"@] } else { Seq::<Seq<char>>::empty() }),
{
    let mut r: Vec<String> = Vec::new();
    r.push("test".to_owned());
    match filter {
        Some(f) => {
            r.push(f.clone());
        },
        None => {},
    }
    if verbose {
        r.push("--".to_owned());
        r.push("--nocapture".to_owned());
    }
    proof {
        assert(r@.map_values(|s: String| s@) =~= seq!["test"@] + (match *filter {
            Some(f) => seq![f@],
            None => Seq::<Seq<char>>::empty(),
        }) + (if verbose { seq!["--"@, "--nocapture"@] } else { Seq::<Seq<char>>::empty() }));
    }
    r
}

/// Whether a changed file is a source file: its extension is `sol`.
pub open spec fn is_source_change(extension: Option<Seq<char>>) -> bool {
    extension == Some("sol"@)
}

/// Whether one of the changed files, given by their extensions, is a source file, so
/// that a watch rebuilds.
pub fn any_source_changed(extensions: &Vec<Option<String>>) -> (b: bool)
    ensures
        b == exists|k: int| 0 <= k < extensions@.len() && is_source_change(#[trigger] crate::ir::opt_str_v(extensions@[k])),
{
    let mut i: usize = 0;
    while i < extensions.len()
        invariant
            i <= extensions@.len(),
            forall|k: int| 0 <= k < i ==> !is_source_change(#[trigger] crate::ir::opt_str_v(extensions@[k])),
        decreases extensions@.len() - i,
    {
        match &extensions[i] {
            Some(e) => {
                if str_eq(e.as_str(), "sol") {
                    proof {
                        assert(is_source_change(crate::ir::opt_str_v(extensions@[i as int])));
                    }
                    return true;
                }
            },
            None => {},
        }
        i = i + 1;
    }
    false
}

} // verus!

//! The decisions of the standalone node program: its role, the name it advertises and
//! how a central recognises such a node among the peripherals it scans.
use vstd::prelude::*;
use crate::ble::{is_new_peer, unknown_address};

verus! {

/// The local name under which a standalone node advertises.
pub open spec fn node_name() -> Seq<char> {
    "libp2p-node"@
}

/// The local name under which a standalone node advertises.
pub fn lp_name() -> (name: &'static str)
    ensures
        name@ == node_name(),
{
    "libp2p-node"
}

/// The advertisement data for a peer: its id as it is.
pub fn generate_advertisement_data(peer_id: &str) -> (data: &str)
    ensures
        data@ == peer_id@,
{
    peer_id
}

/// Whether a peripheral with this local name is a standalone node.
pub fn is_libp2p_node(local_name: Option<&str>) -> (b: bool)
    ensures
        b == match local_name {
            Some(n) => n@ == node_name(),
            None => false,
        },
{
    match local_name {
        Some(n) => {
            let name = n.to_owned();
            let expected = lp_name().to_owned();
            name == expected
        },
        None => false,
    }
}

/// The part a standalone node plays.
#[derive(Clone, Copy, Debug, PartialEq, Eq, Structural)]
pub enum NodeRole {
    /// Advertises itself.
    Peripheral,
    /// Scans for advertising nodes.
    Central,
}

/// Why no role could be read from the command line.
#[derive(Clone, Debug)]
pub enum RoleError {
    /// No role was given.
    Missing,
    /// The role given is neither `peripheral` nor `central`.
    Invalid(String),
}

/// The role that the command line selects: its first argument after the program's name.
pub open spec fn role_from_args(args: Seq<Seq<char>>) -> Result<NodeRole, Option<Seq<char>>> {
    if args.len() <= 1 {
        Err(None)
    } else if args[1] == "peripheral"@ {
        Ok(NodeRole::Peripheral)
    } else if args[1] == "central"@ {
        Ok(NodeRole::Central)
    } else {
        Err(Some(args[1]))
    }
}

/// The role named by the command line `args`, whose first item is the program's name.
pub fn parse_role(args: &Vec<String>) -> (r: Result<NodeRole, RoleError>)
    ensures
        match role_from_args(args@.map_values(|a: String| a@)) {
            Ok(role) => r == Ok::<NodeRole, RoleError>(role),
            Err(None) => r matches Err(RoleError::Missing),
            Err(Some(given)) => (r matches Err(RoleError::Invalid(g)) && g@ == given),
        },
{
    let ghost views = args@.map_values(|a: String| a@);
    if args.len() <= 1 {
        return Err(RoleError::Missing);
    }
    let role = &args[1];
    assert(role@ == views[1]);
    let peripheral = "peripheral".to_owned();
    let central = "central".to_owned();
    if *role == peripheral {
        Ok(NodeRole::Peripheral)
    } else if *role == central {
        Ok(NodeRole::Central)
    } else {
        Err(RoleError::Invalid(role.clone()))
    }
}

/// The message of an error, as the program reports it.
pub open spec fn role_error_text(e: RoleError) -> Seq<char> {
    match e {
        RoleError::Missing => "Need a role - peripheral or central"@,
        RoleError::Invalid(r) => "Invalid role specified "@ + r@,
    }
}

impl RoleError {
    /// The message of the error.
    pub fn message(&self) -> (m: String)
        ensures
            m@ == role_error_text(*self),
    {
        match self {
            RoleError::Missing => "Need a role - peripheral or central".to_owned(),
            RoleError::Invalid(r) => {
                let mut m = "Invalid role specified ".to_owned();
                m.append(r.as_str());
                m
            },
        }
    }
}

/// A standalone node is recognised both by a central looking for it by name and by the
/// network's scanners, which look for the name's prefix.
pub proof fn lemma_node_name_is_discovered(address: Seq<char>)
    requires
        address != unknown_address(),
    ensures
        is_new_peer(address, Some(node_name()), false),
{
    reveal_strlit("libp2p-node");
    reveal_strlit("libp2p-");
    assert(crate::ble::name_prefix() =~= node_name().subrange(0, 7));
}

/// The role depends on the first argument after the program's name alone: with at least
/// one argument, `peripheral` and `central` select their roles and any other word is
/// refused as given, whatever else follows; with none, the role is missing.
pub proof fn lemma_role_from_first_argument(args: Seq<Seq<char>>, more: Seq<Seq<char>>)
    ensures
        args.len() <= 1 ==> role_from_args(args) == Err::<NodeRole, Option<Seq<char>>>(None),
        args.len() >= 2 && args[1] == "peripheral"@ ==> role_from_args(args) == Ok::<
            NodeRole,
            Option<Seq<char>>,
        >(NodeRole::Peripheral),
        args.len() >= 2 && args[1] == "central"@ ==> role_from_args(args) == Ok::<
            NodeRole,
            Option<Seq<char>>,
        >(NodeRole::Central),
        args.len() >= 2 && args[1] != "peripheral"@ && args[1] != "central"@ ==> role_from_args(args)
            == Err::<NodeRole, Option<Seq<char>>>(Some(args[1])),
        args.len() >= 2 ==> role_from_args(args + more) == role_from_args(args),
{
    reveal_strlit("central");
    reveal_strlit("peripheral");
    assert("central"@[0] != "peripheral"@[0]);
    if args.len() >= 2 {
        assert((args + more)[1] == args[1]);
    }
}

} // verus!

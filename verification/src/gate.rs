//! Permission check: decides, from the resolved chat-context metadata,
//! whether the message's author may trigger rendering of rich content.
//! Resolution itself (channel, membership, guild configuration lookups) is
//! chat-transport work and happens outside the library; its outcome is
//! handed in as a [`PermissionProbe`]. The decision fails closed: only a
//! fully resolved positive permission chain allows the action.

use vstd::prelude::*;

verus! {

/// The outcome of resolving the permission chain for a message, step by
/// step: channel, community (guild) membership of the author, community
/// configuration, and finally the author's effective permission to attach
/// rich visual content in that channel. Each variant short of `Resolved`
/// records the first step that could not be completed.
pub enum PermissionProbe {
    /// The message's channel could not be resolved at all.
    ChannelUnresolved,
    /// The channel is not part of a persistent community (for example a
    /// direct-message context).
    NotGuildChannel,
    /// The author's membership in the community could not be resolved.
    MemberUnresolved,
    /// The community's permission configuration could not be resolved.
    GuildUnresolved,
    /// The whole chain resolved; `embed_links` is the author's effective
    /// permission to attach rich visual content in this channel.
    Resolved { embed_links: bool },
}

/// The tri-state answer of the permission check.
pub enum GateDecision {
    /// The author is positively confirmed to have the permission.
    Allowed,
    /// The chain resolved and the author lacks the permission.
    Denied,
    /// The permission state could not be positively confirmed.
    Unresolved,
}

/// The decision for a probe: `Allowed` only when the chain resolved
/// with a positive permission, `Denied` when it resolved negatively, and
/// `Unresolved` whenever any resolution step failed.
pub open spec fn spec_gate(p: PermissionProbe) -> GateDecision {
    match p {
        PermissionProbe::Resolved { embed_links } => if embed_links {
            GateDecision::Allowed
        } else {
            GateDecision::Denied
        },
        _ => GateDecision::Unresolved,
    }
}

/// Decides whether the author may trigger rendering of rich content.
pub fn can_render_rich_content(probe: &PermissionProbe) -> (g: GateDecision)
    ensures
        g == spec_gate(*probe),
{
    match probe {
        PermissionProbe::Resolved { embed_links } => {
            if *embed_links {
                GateDecision::Allowed
            } else {
                GateDecision::Denied
            }
        },
        PermissionProbe::ChannelUnresolved => GateDecision::Unresolved,
        PermissionProbe::NotGuildChannel => GateDecision::Unresolved,
        PermissionProbe::MemberUnresolved => GateDecision::Unresolved,
        PermissionProbe::GuildUnresolved => GateDecision::Unresolved,
    }
}

/// Collapses the tri-state decision to the boolean the pipeline acts on:
/// only a positive `Allowed` proceeds; `Denied` and `Unresolved` both block.
pub fn gate_allows(g: &GateDecision) -> (r: bool)
    ensures
        r == (g is Allowed),
{
    match g {
        GateDecision::Allowed => true,
        GateDecision::Denied => false,
        GateDecision::Unresolved => false,
    }
}

/// The permission check fails closed: the action is allowed exactly on a
/// fully resolved
/// positive permission chain; a direct-message context, an unresolved
/// membership and an unresolved permission configuration all block it.
pub proof fn lemma_gate_fail_closed(p: PermissionProbe)
    ensures
        spec_gate(p) is Allowed <==> p == (PermissionProbe::Resolved { embed_links: true }),
        p is ChannelUnresolved || p is NotGuildChannel || p is MemberUnresolved
            || p is GuildUnresolved ==> spec_gate(p) is Unresolved,
        p == (PermissionProbe::Resolved { embed_links: false }) ==> spec_gate(p) is Denied,
{
}

} // verus!

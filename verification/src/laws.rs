//! Cross-cutting laws of the store, proved once and for all.
//!
//! The migration engine's idempotence lives in [`crate::schema`], the
//! codec round trips and drift tolerance in [`crate::codec`], and the
//! patch-surface law in [`crate::patch`]; this module holds the tenant
//! isolation and create/fetch round-trip laws of the entity layer.

use crate::entities::{Client, Deal};
use crate::store::{client_matches, client_visible, deal_matches, deal_visible};
use vstd::prelude::*;

verus! {

/// Tenant isolation for clients: when every row carrying an id belongs to
/// another tenant, the scoped lookup predicate rejects every row of the
/// table. Every scoped client operation branches only on that predicate,
/// so a fetch returns nothing, an update reports `NotFoundOrForbidden`
/// leaving the store unchanged, and a delete removes nothing — exactly
/// the behaviour when the id does not exist at all.
pub proof fn lemma_client_tenant_isolation(s: Seq<Client>, id: Seq<char>, uid: Seq<char>)
    requires
        forall|i: int|
            0 <= i < s.len() && (#[trigger] s[i]).id@ == id ==> !client_visible(s[i], uid),
    ensures
        forall|i: int| 0 <= i < s.len() ==> !client_matches(#[trigger] s[i], id, uid),
        !(exists|i: int| 0 <= i < s.len() && client_matches(#[trigger] s[i], id, uid)),
{
}

/// Tenant isolation for deals, as [`lemma_client_tenant_isolation`].
pub proof fn lemma_deal_tenant_isolation(s: Seq<Deal>, id: Seq<char>, uid: Seq<char>)
    requires
        forall|i: int| 0 <= i < s.len() && (#[trigger] s[i]).id@ == id ==> !deal_visible(s[i], uid),
    ensures
        forall|i: int| 0 <= i < s.len() ==> !deal_matches(#[trigger] s[i], id, uid),
        !(exists|i: int| 0 <= i < s.len() && deal_matches(#[trigger] s[i], id, uid)),
{
}

/// Round trip for clients: creating a fresh client for a tenant stores
/// the input with the tenant assigned and nothing else changed, and the
/// scoped lookup then finds exactly that record — equal to the input in
/// every field except the assigned tenant.
pub proof fn lemma_client_create_then_get(pre: Seq<Client>, client: Client, u: String)
    requires
        forall|i: int| 0 <= i < pre.len() ==> (#[trigger] pre[i]).id@ != client.id@,
        u@.len() > 0,
    ensures
        ({
            let stored = Client { user_id: Some(u), ..client };
            let post = pre.push(stored);
            &&& post.contains(stored)
            &&& client_matches(stored, client.id@, u@)
            &&& forall|i: int|
                0 <= i < post.len() && client_matches(#[trigger] post[i], client.id@, u@)
                    ==> post[i] == stored
        }),
{
    let stored = Client { user_id: Some(u), ..client };
    let post = pre.push(stored);
    assert(post[post.len() - 1] == stored);
    assert(post.contains(stored));
}

/// Round trip for deals, as [`lemma_client_create_then_get`].
pub proof fn lemma_deal_create_then_get(pre: Seq<Deal>, deal: Deal, u: String)
    requires
        forall|i: int| 0 <= i < pre.len() ==> (#[trigger] pre[i]).id@ != deal.id@,
        u@.len() > 0,
    ensures
        ({
            let stored = Deal { user_id: Some(u), ..deal };
            let post = pre.push(stored);
            &&& post.contains(stored)
            &&& deal_matches(stored, deal.id@, u@)
            &&& forall|i: int|
                0 <= i < post.len() && deal_matches(#[trigger] post[i], deal.id@, u@) ==> post[i]
                    == stored
        }),
{
    let stored = Deal { user_id: Some(u), ..deal };
    let post = pre.push(stored);
    assert(post[post.len() - 1] == stored);
    assert(post.contains(stored));
}

} // verus!

//! The tenants that tokens may come from, fixed at construction.
use vstd::prelude::*;
use vstd::string::*;
use crate::error::EntraIdError;
use crate::table::{lemma_entries_map, Table};
use crate::token::{key_route, opt_view, peek_token, route_outcome, specify_issuer, TokenFault};
use crate::types::{IssuerTenant, Kid, Tenant, TenantId, UnverifiedClaims};

verus! {

/// The registry that a list of tenants describes: each id maps to the last
/// tenant in the list with that id.
pub open spec fn registry_of(tenants: Seq<Tenant>) -> Map<Seq<char>, Tenant>
    decreases tenants.len(),
{
    if tenants.len() == 0 {
        Map::empty()
    } else {
        registry_of(tenants.drop_last()).insert(tenants.last().id@, tenants.last())
    }
}

/// The tenants by id. It never changes after construction.
pub struct TenantRegistry {
    tenants: Table<Tenant>,
}

impl View for TenantRegistry {
    type V = Map<Seq<char>, Tenant>;

    closed spec fn view(&self) -> Map<Seq<char>, Tenant> {
        self.tenants@
    }
}

impl TenantRegistry {
    pub closed spec fn wf(&self) -> bool {
        self.tenants.wf()
    }

    /// Registers the tenants; of two with the same id, the later one wins.
    pub fn from_tenants(tenants: Vec<Tenant>) -> (r: Self)
        ensures
            r.wf(),
            r@ == registry_of(tenants@),
    {
        let mut table: Table<Tenant> = Table::new();
        let mut rest = tenants;
        let ghost all = rest@;
        let mut taken: Vec<Tenant> = Vec::new();
        // Take the tenants from the back, then insert them front to back.
        while rest.len() > 0
            invariant
                all.len() == taken@.len() + rest@.len(),
                forall|j: int| 0 <= j < rest@.len() ==> #[trigger] rest@[j] == all[j],
                forall|j: int| 0 <= j < taken@.len() ==> #[trigger] taken@[j] == all[all.len() - 1 - j],
            decreases rest@.len(),
        {
            let t = rest.pop().unwrap();
            taken.push(t);
        }
        assert(all.subrange(0, 0) =~= Seq::<Tenant>::empty());
        while taken.len() > 0
            invariant
                table.wf(),
                taken@.len() <= all.len(),
                forall|j: int| 0 <= j < taken@.len() ==> #[trigger] taken@[j] == all[all.len() - 1 - j],
                table@ == registry_of(all.subrange(0, all.len() - taken@.len())),
            decreases taken@.len(),
        {
            let ghost before = all.subrange(0, all.len() - taken@.len());
            let t = taken.pop().unwrap();
            let ghost after = all.subrange(0, all.len() - taken@.len());
            assert(after.drop_last() =~= before);
            assert(after.last() == t);
            let key = t.id.0.clone();
            table.insert(key, t);
        }
        assert(all.subrange(0, all.len() as int) =~= all);
        TenantRegistry { tenants: table }
    }

    /// The tenant registered under `tenant_id`.
    pub fn get(&self, tenant_id: &TenantId) -> (r: Option<&Tenant>)
        requires
            self.wf(),
        ensures
            r matches Some(t) ==> self@.contains_key(tenant_id@) && *t == self@[tenant_id@],
            r is None <==> !self@.contains_key(tenant_id@),
    {
        self.tenants.get(&tenant_id.0)
    }

    /// The ids of all registered tenants, each once.
    pub fn tenant_ids(&self) -> (r: Vec<TenantId>)
        requires
            self.wf(),
        ensures
            forall|i: int| 0 <= i < r@.len() ==> self@.contains_key(#[trigger] r@[i]@),
            forall|k: Seq<char>| #[trigger] self@.contains_key(k) ==> exists|i: int|
                0 <= i < r@.len() && r@[i]@ == k,
            forall|i: int, j: int|
                0 <= i < r@.len() && 0 <= j < r@.len() && (#[trigger] r@[i])@ == (#[trigger] r@[j])@
                    ==> i == j,
    {
        proof {
            lemma_entries_map(self.tenants.spec_entries());
        }
        let mut ids: Vec<TenantId> = Vec::new();
        let mut i: usize = 0;
        let n = self.tenants.len();
        while i < n
            invariant
                n == self.tenants.spec_entries().len(),
                i <= n,
                self.tenants.wf(),
                ids@.len() == i,
                forall|j: int| 0 <= j < i ==> (#[trigger] ids@[j])@ == self.tenants.spec_entries()[j].0@,
            decreases n - i,
        {
            let entry = self.tenants.entry_at(i);
            ids.push(TenantId(entry.0.clone()));
            i = i + 1;
        }
        proof {
            lemma_entries_map(self.tenants.spec_entries());
            let s = self.tenants.spec_entries();
            assert forall|k: Seq<char>| #[trigger] self@.contains_key(k) implies exists|i: int|
                0 <= i < ids@.len() && ids@[i]@ == k by {
                let i = choose|i: int| 0 <= i < s.len() && (#[trigger] s[i]).0@ == k;
                assert(ids@[i]@ == k);
            }
            assert forall|i: int| 0 <= i < ids@.len() implies self@.contains_key(#[trigger] ids@[i]@) by {
                assert(self@.contains_key(s[i].0@));
            }
            assert forall|a: int, b: int|
                0 <= a < ids@.len() && 0 <= b < ids@.len() && (#[trigger] ids@[a])@ == (
                #[trigger] ids@[b])@ implies a == b by {
                assert(s[a].0@ == s[b].0@);
            }
        }
        ids
    }

    /// Finds the registered tenant that unverified claims name.
    pub fn resolve_tenant(&self, unverified_claims: &UnverifiedClaims) -> (r: Result<
        &Tenant,
        EntraIdError,
    >)
        requires
            self.wf(),
        ensures
            match route_outcome(unverified_claims.iss@, opt_view(unverified_claims.tid)) {
                Ok(id) => match r {
                    Ok(t) => self@.contains_key(id) && *t == self@[id],
                    Err(e) => !self@.contains_key(id) && (e matches EntraIdError::TenantNotFound(t)
                        && t@ == id),
                },
                Err(f) => r matches Err(e) && e.fault() == f,
            },
    {
        let tenant_id = match specify_issuer(unverified_claims)? {
            IssuerTenant::Tenant(id) => id,
            other => {
                return Err(EntraIdError::DisallowedIssuerTenant(other));
            },
        };
        match self.get(&tenant_id) {
            Some(t) => Ok(t),
            None => Err(EntraIdError::TenantNotFound(tenant_id)),
        }
    }
}

/// What the decoded payload of a token parsed into, as `key_route` takes it.
pub open spec fn parsed_claims(
    claims: Result<UnverifiedClaims, serde_json::Error>,
) -> Option<(Seq<char>, Option<Seq<char>>)> {
    match claims {
        Ok(c) => Some((c.iss@, opt_view(c.tid))),
        Err(_) => None,
    }
}

impl TenantRegistry {
    /// Reads a token up to the key lookup: checks its header, takes the
    /// tenant from the claims that its payload parsed into, and finds that
    /// tenant; every refusal comes before any key is looked up.
    pub fn route_token(
        &self,
        token: &str,
        claims: Result<UnverifiedClaims, serde_json::Error>,
    ) -> (r: Result<(&Tenant, Kid), EntraIdError>)
        requires
            self.wf(),
        ensures
            match key_route(token.spec_bytes(), parsed_claims(claims), self@.dom()) {
                Ok((tenant, kid)) => r matches Ok((t, k)) && self@.contains_key(tenant) && *t
                    == self@[tenant] && k@ == kid,
                Err(f) => r matches Err(e) && e.fault() == f,
            },
    {
        let peeked = peek_token(token)?;
        let claims = match claims {
            Ok(c) => c,
            Err(e) => {
                return Err(EntraIdError::TokenPayloadParseError(e));
            },
        };
        let tenant = self.resolve_tenant(&claims)?;
        Ok((tenant, peeked.kid))
    }
}

} // verus!

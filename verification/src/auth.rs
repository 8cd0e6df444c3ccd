//! Authorization contexts: the identity a request acts as and the roles it
//! holds per namespace.

use vstd::prelude::*;

verus! {

broadcast use vstd::string::group_string_axioms;

/// The identity a request acts as, with the roles it holds.
#[derive(Debug)]
pub struct AuthContext {
    /// Identifier of the acting identity.
    pub current_identity_did: String,
    /// Roles of the acting identity, as `(namespace, role)`.
    pub roles: Vec<(String, String)>,
    /// Roles granted to identities, as `(identity, namespace, role)`.
    pub identity_roles: Vec<(String, String, String)>,
}

pub open spec fn pair_views(v: Seq<(String, String)>) -> Seq<(Seq<char>, Seq<char>)> {
    v.map_values(|p: (String, String)| (p.0@, p.1@))
}

pub open spec fn triple_views(v: Seq<(String, String, String)>) -> Seq<
    (Seq<char>, Seq<char>, Seq<char>),
> {
    v.map_values(|p: (String, String, String)| (p.0@, p.1@, p.2@))
}

impl AuthContext {
    /// A context acting as `identity`, with no roles.
    pub fn new(identity: &str) -> (r: AuthContext)
        ensures
            r.current_identity_did@ == identity@,
            r.roles@.len() == 0,
            r.identity_roles@.len() == 0,
    {
        AuthContext {
            current_identity_did: identity.to_owned(),
            roles: Vec::new(),
            identity_roles: Vec::new(),
        }
    }

    /// The acting identity.
    pub fn user_id(&self) -> (r: String)
        ensures
            r@ == self.current_identity_did@,
    {
        self.current_identity_did.clone()
    }

    /// Grants the acting identity `role` in `namespace`.
    pub fn add_role(&mut self, namespace: &str, role: &str)
        ensures
            final(self).current_identity_did == old(self).current_identity_did,
            pair_views(final(self).roles@) == pair_views(old(self).roles@).push((namespace@, role@)),
            final(self).identity_roles@ == old(self).identity_roles@,
    {
        let ghost before = self.roles@;
        self.roles.push((namespace.to_owned(), role.to_owned()));
        assert(pair_views(self.roles@) =~= pair_views(before).push((namespace@, role@)));
    }

    /// Grants `identity` the role `role` in `namespace`.
    pub fn add_role_to_identity(&mut self, identity: &str, namespace: &str, role: &str)
        ensures
            final(self).current_identity_did == old(self).current_identity_did,
            final(self).roles@ == old(self).roles@,
            triple_views(final(self).identity_roles@) == triple_views(old(self).identity_roles@).push(
                (identity@, namespace@, role@),
            ),
    {
        let ghost before = self.identity_roles@;
        self.identity_roles.push((identity.to_owned(), namespace.to_owned(), role.to_owned()));
        assert(triple_views(self.identity_roles@) =~= triple_views(before).push(
            (identity@, namespace@, role@),
        ));
    }
}

/// What a default context holds: the identity, and the one global role
/// granted to it and recorded for it.
pub open spec fn default_context(r: AuthContext, id: Seq<char>, role: Seq<char>) -> bool {
    &&& r.current_identity_did@ == id
    &&& pair_views(r.roles@) == seq![("global"@, role)]
    &&& triple_views(r.identity_roles@) == seq![(id, "global"@, role)]
}

/// A context for `id_name` (default `anonymous`) holding `role` (default
/// `user`) in the global namespace.
pub fn create_default_auth_context(id_name: Option<&str>, role: Option<&str>) -> (r: AuthContext)
    ensures
        default_context(
            r,
            match id_name {
                Some(n) => n@,
                None => "anonymous"@,
            },
            match role {
                Some(x) => x@,
                None => "user"@,
            },
        ),
{
    let id_name = match id_name {
        Some(n) => n,
        None => "anonymous",
    };
    let role = match role {
        Some(x) => x,
        None => "user",
    };
    let mut auth = AuthContext::new(id_name);
    auth.add_role("global", role);
    auth.add_role_to_identity(id_name, "global", role);
    assert(pair_views(auth.roles@) =~= seq![("global"@, role@)]);
    assert(triple_views(auth.identity_roles@) =~= seq![(id_name@, "global"@, role@)]);
    auth
}

/// The context demonstrations run under: `demo-user` with the `user` role.
pub fn create_demo_auth_context() -> (r: AuthContext)
    ensures
        default_context(r, "demo-user"@, "user"@),
{
    create_default_auth_context(Some("demo-user"), Some("user"))
}

/// The context storage inspection runs under: `admin-user` with the `admin`
/// role.
pub fn create_admin_auth_context() -> (r: AuthContext)
    ensures
        default_context(r, "admin-user"@, "admin"@),
{
    create_default_auth_context(Some("admin-user"), Some("admin"))
}

/// The context commands run under: `demo_user`, with no roles, whatever the
/// storage settings.
pub fn get_or_create_auth_context(storage_backend: &str, storage_path: &str) -> (r: AuthContext)
    ensures
        r.current_identity_did@ == "demo_user"@,
        r.roles@.len() == 0,
        r.identity_roles@.len() == 0,
{
    AuthContext::new("demo_user")
}

} // verus!

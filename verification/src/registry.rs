//! The channel registry: named channel endpoints, a designated default,
//! a session-to-channel binding table, and the queue of sessions awaiting
//! manual binding.
//!
//! The registry's invariant (`RegistryModel::wf`) guarantees that endpoint
//! names and binding keys are unique, that every binding names a registered
//! endpoint, and that a session is never both pending and bound.

use vstd::prelude::*;
use crate::strutil::str_eq;

verus! {

/// A named channel endpoint: credential, target conversation, API base URL.
pub struct ChannelEndpoint {
    pub name: String,
    pub bot_token: String,
    pub chat_id: String,
    pub api_base_url: String,
}

/// One entry of the session-to-channel binding table.
pub struct SessionBinding {
    pub session_id: String,
    pub channel_name: String,
}

/// Mathematical image of a channel endpoint.
pub ghost struct EndpointModel {
    pub name: Seq<char>,
    pub bot_token: Seq<char>,
    pub chat_id: Seq<char>,
    pub api_base_url: Seq<char>,
}

/// Mathematical image of one binding entry.
pub ghost struct BindingModel {
    pub session_id: Seq<char>,
    pub channel_name: Seq<char>,
}

/// Mathematical image of the whole registry.
pub ghost struct RegistryModel {
    pub endpoints: Seq<EndpointModel>,
    pub default_name: Seq<char>,
    pub bindings: Seq<BindingModel>,
    pub pending: Seq<Seq<char>>,
}

impl View for ChannelEndpoint {
    type V = EndpointModel;

    open spec fn view(&self) -> EndpointModel {
        EndpointModel {
            name: self.name@,
            bot_token: self.bot_token@,
            chat_id: self.chat_id@,
            api_base_url: self.api_base_url@,
        }
    }
}

impl View for SessionBinding {
    type V = BindingModel;

    open spec fn view(&self) -> BindingModel {
        BindingModel { session_id: self.session_id@, channel_name: self.channel_name@ }
    }
}

impl Clone for ChannelEndpoint {
    fn clone(&self) -> (r: Self)
        ensures
            r == *self,
    {
        ChannelEndpoint {
            name: self.name.clone(),
            bot_token: self.bot_token.clone(),
            chat_id: self.chat_id.clone(),
            api_base_url: self.api_base_url.clone(),
        }
    }
}

/// The chat provider's standard API base URL, used when an endpoint sets
/// none of its own.
pub open spec fn spec_standard_api_url() -> Seq<char> {
    "https://api.telegram.org"@
}

/// The provider's standard API base URL.
pub fn standard_api_url() -> (r: &'static str)
    ensures
        r@ == spec_standard_api_url(),
{
    "https://api.telegram.org"
}

/// An endpoint's API base URL, with absence meaning the standard one.
pub fn api_base_url_or_default(url: Option<String>) -> (r: String)
    ensures
        r@ == match url {
            Some(u) => u@,
            None => spec_standard_api_url(),
        },
{
    match url {
        Some(u) => u,
        None => String::from_str(standard_api_url()),
    }
}

/// The endpoint's API base URL when it differs from the standard one;
/// callers pass the standard URL as absence to the transport.
pub fn custom_api_url(endpoint: &ChannelEndpoint) -> (r: Option<String>)
    ensures
        endpoint@.api_base_url == spec_standard_api_url() ==> r is None,
        endpoint@.api_base_url != spec_standard_api_url() ==> (r matches Some(u) && u@
            == endpoint@.api_base_url),
{
    if str_eq(endpoint.api_base_url.as_str(), standard_api_url()) {
        None
    } else {
        Some(endpoint.api_base_url.clone())
    }
}

/// Why a registry mutation or lookup was refused.
#[derive(Clone, Copy, Debug, PartialEq, Eq, Structural)]
pub enum RegistryError {
    DuplicateName,
    NotFound,
    NoChannelConfigured,
}

impl RegistryModel {
    /// Whether an endpoint with this name is registered.
    pub open spec fn has_endpoint(self, name: Seq<char>) -> bool {
        exists|i: int| 0 <= i < self.endpoints.len() && self.endpoints[i].name == name
    }

    /// Index of the endpoint with this name (meaningful when names are unique).
    pub open spec fn endpoint_index(self, name: Seq<char>) -> int {
        choose|i: int| 0 <= i < self.endpoints.len() && self.endpoints[i].name == name
    }

    /// The endpoint registered under this name.
    pub open spec fn endpoint_named(self, name: Seq<char>) -> EndpointModel {
        self.endpoints[self.endpoint_index(name)]
    }

    /// Whether this session id has a binding.
    pub open spec fn binds(self, session_id: Seq<char>) -> bool {
        exists|i: int| 0 <= i < self.bindings.len() && self.bindings[i].session_id == session_id
    }

    /// Index of this session id's binding (meaningful when keys are unique).
    pub open spec fn binding_index(self, session_id: Seq<char>) -> int {
        choose|i: int| 0 <= i < self.bindings.len() && self.bindings[i].session_id == session_id
    }

    /// The channel name this session id is bound to.
    pub open spec fn bound_name(self, session_id: Seq<char>) -> Seq<char> {
        self.bindings[self.binding_index(session_id)].channel_name
    }

    /// Whether this session id is queued for manual binding.
    pub open spec fn is_pending(self, session_id: Seq<char>) -> bool {
        self.pending.contains(session_id)
    }

    /// Index of this session id in the pending queue (meaningful when the
    /// queue has no duplicates).
    pub open spec fn pending_index(self, session_id: Seq<char>) -> int {
        choose|i: int| 0 <= i < self.pending.len() && self.pending[i] == session_id
    }

    /// The default endpoint: the one named as default, else the first
    /// registered one, else none.
    pub open spec fn default_endpoint(self) -> Option<EndpointModel> {
        if self.has_endpoint(self.default_name) {
            Some(self.endpoint_named(self.default_name))
        } else if self.endpoints.len() > 0 {
            Some(self.endpoints[0])
        } else {
            None
        }
    }

    /// Endpoint names are pairwise distinct.
    pub open spec fn names_unique(self) -> bool {
        forall|i: int, j: int|
            0 <= i < j < self.endpoints.len() ==> self.endpoints[i].name != self.endpoints[j].name
    }

    /// Binding keys are pairwise distinct.
    pub open spec fn binding_keys_unique(self) -> bool {
        forall|i: int, j: int|
            0 <= i < j < self.bindings.len()
                ==> self.bindings[i].session_id != self.bindings[j].session_id
    }

    /// Every binding names a registered endpoint.
    pub open spec fn bindings_registered(self) -> bool {
        forall|i: int|
            0 <= i < self.bindings.len() ==> self.has_endpoint(#[trigger] self.bindings[i].channel_name)
    }

    /// Pending entries are pairwise distinct.
    pub open spec fn pending_unique(self) -> bool {
        forall|i: int, j: int|
            0 <= i < j < self.pending.len() ==> self.pending[i] != self.pending[j]
    }

    /// A pending session id is never bound.
    pub open spec fn pending_not_bound(self) -> bool {
        forall|i: int| 0 <= i < self.pending.len() ==> !self.binds(#[trigger] self.pending[i])
    }

    /// The registry invariant.
    pub open spec fn wf(self) -> bool {
        &&& self.names_unique()
        &&& self.binding_keys_unique()
        &&& self.bindings_registered()
        &&& self.pending_unique()
        &&& self.pending_not_bound()
    }
}

/// If names are unique, the endpoint index of the name at `i` is `i` itself.
pub proof fn lemma_endpoint_index_of(m: RegistryModel, i: int)
    requires
        m.names_unique(),
        0 <= i < m.endpoints.len(),
    ensures
        m.has_endpoint(m.endpoints[i].name),
        m.endpoint_index(m.endpoints[i].name) == i,
        m.endpoint_named(m.endpoints[i].name) == m.endpoints[i],
{
    assert(m.has_endpoint(m.endpoints[i].name));
    let j = m.endpoint_index(m.endpoints[i].name);
    if j != i {
        if j < i {
            assert(m.endpoints[j].name != m.endpoints[i].name);
        } else {
            assert(m.endpoints[i].name != m.endpoints[j].name);
        }
    }
}

/// If binding keys are unique, the binding index of the key at `i` is `i`.
pub proof fn lemma_binding_index_of(m: RegistryModel, i: int)
    requires
        m.binding_keys_unique(),
        0 <= i < m.bindings.len(),
    ensures
        m.binds(m.bindings[i].session_id),
        m.binding_index(m.bindings[i].session_id) == i,
        m.bound_name(m.bindings[i].session_id) == m.bindings[i].channel_name,
{
    assert(m.binds(m.bindings[i].session_id));
    let j = m.binding_index(m.bindings[i].session_id);
    if j != i {
        if j < i {
            assert(m.bindings[j].session_id != m.bindings[i].session_id);
        } else {
            assert(m.bindings[i].session_id != m.bindings[j].session_id);
        }
    }
}

impl Clone for SessionBinding {
    fn clone(&self) -> (r: Self)
        ensures
            r == *self,
    {
        SessionBinding {
            session_id: self.session_id.clone(),
            channel_name: self.channel_name.clone(),
        }
    }
}

/// Every element of a filtered sequence is an element of the original.
pub proof fn lemma_filter_subset<A>(s: Seq<A>, p: spec_fn(A) -> bool)
    ensures
        forall|i: int| 0 <= i < s.filter(p).len() ==> s.contains(#[trigger] s.filter(p)[i]),
    decreases s.len(),
{
    reveal(Seq::filter);
    if s.len() > 0 {
        let d = s.drop_last();
        lemma_filter_subset(d, p);
        assert forall|i: int| 0 <= i < s.filter(p).len() implies s.contains(
            #[trigger] s.filter(p)[i],
        ) by {
            if i < d.filter(p).len() {
                assert(d.contains(d.filter(p)[i]));
                let k = choose|k: int| 0 <= k < d.len() && d[k] == d.filter(p)[i];
                assert(s[k] == s.filter(p)[i]);
            } else {
                assert(s.filter(p)[i] == s.last());
                assert(s[s.len() - 1] == s.last());
            }
        }
    }
}

/// Filtering a binding table with pairwise-distinct keys keeps them distinct.
pub proof fn lemma_filter_keys_unique(s: Seq<BindingModel>, p: spec_fn(BindingModel) -> bool)
    requires
        forall|i: int, j: int| 0 <= i < j < s.len() ==> s[i].session_id != s[j].session_id,
    ensures
        forall|i: int, j: int|
            0 <= i < j < s.filter(p).len()
                ==> s.filter(p)[i].session_id != s.filter(p)[j].session_id,
    decreases s.len(),
{
    reveal(Seq::filter);
    if s.len() > 0 {
        let d = s.drop_last();
        lemma_filter_keys_unique(d, p);
        lemma_filter_subset(d, p);
        assert forall|i: int, j: int|
            0 <= i < j < s.filter(p).len() implies s.filter(p)[i].session_id != s.filter(
            p,
        )[j].session_id by {
            if j < d.filter(p).len() {
            } else {
                assert(p(s.last()) && s.filter(p)[j] == s.last());
                assert(d.contains(d.filter(p)[i]));
                let k = choose|k: int| 0 <= k < d.len() && d[k] == d.filter(p)[i];
                assert(s[k].session_id != s[s.len() - 1].session_id);
            }
        }
    }
}

/// If pending entries are unique, the pending index of the entry at `i` is `i`.
pub proof fn lemma_pending_index_of(m: RegistryModel, i: int)
    requires
        m.pending_unique(),
        0 <= i < m.pending.len(),
    ensures
        m.is_pending(m.pending[i]),
        m.pending_index(m.pending[i]) == i,
{
    assert(m.pending.contains(m.pending[i]));
    let j = m.pending_index(m.pending[i]);
    if j != i {
        if j < i {
            assert(m.pending[j] != m.pending[i]);
        } else {
            assert(m.pending[i] != m.pending[j]);
        }
    }
}

/// Law: in a well-formed registry every value of the binding table names a
/// currently registered endpoint — no binding dangles.
pub proof fn lemma_no_dangling_bindings(m: RegistryModel)
    requires
        m.wf(),
    ensures
        forall|i: int|
            0 <= i < m.bindings.len() ==> m.has_endpoint(#[trigger] m.bindings[i].channel_name),
{
}

/// Law: in a well-formed registry a session id is never both pending and
/// bound.
pub proof fn lemma_pending_exclusive(m: RegistryModel, session_id: Seq<char>)
    requires
        m.wf(),
    ensures
        !(m.is_pending(session_id) && m.binds(session_id)),
{
    if m.is_pending(session_id) {
        let i = choose|i: int| 0 <= i < m.pending.len() && m.pending[i] == session_id;
        assert(!m.binds(m.pending[i]));
    }
}

/// The registry of channel endpoints, default choice, session bindings and
/// pending sessions.
pub struct ChannelRegistry {
    pub endpoints: Vec<ChannelEndpoint>,
    pub default_name: String,
    pub bindings: Vec<SessionBinding>,
    pub pending: Vec<String>,
}

impl View for ChannelRegistry {
    type V = RegistryModel;

    open spec fn view(&self) -> RegistryModel {
        RegistryModel {
            endpoints: self.endpoints@.map_values(|e: ChannelEndpoint| e@),
            default_name: self.default_name@,
            bindings: self.bindings@.map_values(|b: SessionBinding| b@),
            pending: self.pending@.map_values(|p: String| p@),
        }
    }
}

impl ChannelRegistry {
    /// An empty registry with no default.
    pub fn new() -> (r: Self)
        ensures
            r@.wf(),
            r@.endpoints.len() == 0,
            r@.bindings.len() == 0,
            r@.pending.len() == 0,
            r@.default_name == ""@,
    {
        let r = ChannelRegistry {
            endpoints: Vec::new(),
            default_name: String::new(),
            bindings: Vec::new(),
            pending: Vec::new(),
        };
        proof {
            assert(r@.endpoints =~= Seq::<EndpointModel>::empty());
            assert(r@.bindings =~= Seq::<BindingModel>::empty());
            assert(r@.pending =~= Seq::<Seq<char>>::empty());
            reveal_strlit("");
            assert(r@.default_name =~= ""@);
        }
        r
    }

    /// Index of the endpoint with this name, if any; also reports that no
    /// earlier index matches.
    fn find_endpoint(&self, name: &str) -> (r: Option<usize>)
        ensures
            match r {
                Some(i) => i < self@.endpoints.len() && self@.endpoints[i as int].name == name@,
                None => !self@.has_endpoint(name@),
            },
    {
        let n = self.endpoints.len();
        let mut i: usize = 0;
        while i < n
            invariant
                i <= n,
                n == self.endpoints.len(),
                forall|j: int| 0 <= j < i ==> self@.endpoints[j].name != name@,
            decreases n - i,
        {
            if str_eq(self.endpoints[i].name.as_str(), name) {
                return Some(i);
            }
            i += 1;
        }
        None
    }

    /// Index of this session id's binding, if any.
    fn find_binding(&self, session_id: &str) -> (r: Option<usize>)
        ensures
            match r {
                Some(i) => i < self@.bindings.len() && self@.bindings[i as int].session_id == session_id@,
                None => !self@.binds(session_id@),
            },
    {
        let n = self.bindings.len();
        let mut i: usize = 0;
        while i < n
            invariant
                i <= n,
                n == self.bindings.len(),
                forall|j: int| 0 <= j < i ==> self@.bindings[j].session_id != session_id@,
            decreases n - i,
        {
            if str_eq(self.bindings[i].session_id.as_str(), session_id) {
                return Some(i);
            }
            i += 1;
        }
        None
    }

    /// Index of this session id in the pending queue, if any.
    fn find_pending(&self, session_id: &str) -> (r: Option<usize>)
        ensures
            match r {
                Some(i) => i < self@.pending.len() && self@.pending[i as int] == session_id@,
                None => !self@.is_pending(session_id@),
            },
    {
        let n = self.pending.len();
        let mut i: usize = 0;
        while i < n
            invariant
                i <= n,
                n == self.pending.len(),
                forall|j: int| 0 <= j < i ==> self@.pending[j] != session_id@,
            decreases n - i,
        {
            if str_eq(self.pending[i].as_str(), session_id) {
                return Some(i);
            }
            i += 1;
        }
        proof {
            if self@.is_pending(session_id@) {
                let j = choose|j: int| 0 <= j < self@.pending.len() && self@.pending[j] == session_id@;
                assert(self@.pending[j] == session_id@);
            }
        }
        None
    }

    /// The endpoint registered under this name, if any.
    pub fn get(&self, name: &str) -> (r: Option<&ChannelEndpoint>)
        requires
            self@.wf(),
        ensures
            match r {
                Some(e) => self@.has_endpoint(name@) && e@ == self@.endpoint_named(name@),
                None => !self@.has_endpoint(name@),
            },
    {
        match self.find_endpoint(name) {
            Some(i) => {
                proof {
                    lemma_endpoint_index_of(self@, i as int);
                }
                Some(&self.endpoints[i])
            }
            None => None,
        }
    }

    /// Registers a new endpoint; refuses a name collision and leaves the
    /// registry unchanged in that case.
    pub fn add(&mut self, endpoint: ChannelEndpoint) -> (r: Result<(), RegistryError>)
        requires
            old(self)@.wf(),
        ensures
            final(self)@.wf(),
            match r {
                Ok(()) => {
                    &&& !old(self)@.has_endpoint(endpoint@.name)
                    &&& final(self)@.endpoints == old(self)@.endpoints.push(endpoint@)
                    &&& final(self)@.default_name == old(self)@.default_name
                    &&& final(self)@.bindings == old(self)@.bindings
                    &&& final(self)@.pending == old(self)@.pending
                },
                Err(RegistryError::DuplicateName) => old(self)@.has_endpoint(endpoint@.name)
                    && final(self)@ == old(self)@,
                Err(_) => false,
            },
    {
        if self.find_endpoint(endpoint.name.as_str()).is_some() {
            proof {
                let i = choose|i: int|
                    0 <= i < self@.endpoints.len() && self@.endpoints[i].name == endpoint@.name;
                assert(self@.has_endpoint(endpoint@.name));
            }
            return Err(RegistryError::DuplicateName);
        }
        let ghost old_model = self@;
        self.endpoints.push(endpoint);
        proof {
            assert(self@.endpoints =~= old_model.endpoints.push(endpoint@));
            assert(self@.bindings =~= old_model.bindings);
            assert(self@.pending =~= old_model.pending);
            let m = self@;
            assert forall|i: int| 0 <= i < m.bindings.len() implies m.has_endpoint(
                #[trigger] m.bindings[i].channel_name,
            ) by {
                assert(old_model.has_endpoint(old_model.bindings[i].channel_name));
                let j = choose|j: int|
                    0 <= j < old_model.endpoints.len()
                        && old_model.endpoints[j].name == old_model.bindings[i].channel_name;
                assert(m.endpoints[j].name == m.bindings[i].channel_name);
            }
            assert forall|i: int| 0 <= i < m.pending.len() implies !m.binds(
                #[trigger] m.pending[i],
            ) by {
                assert(!old_model.binds(old_model.pending[i]));
            }
        }
        Ok(())
    }

    /// Unregisters the endpoint with this name, and with it every binding
    /// that pointed at it: a dangling binding is worse than a lost one.
    pub fn remove(&mut self, name: &str) -> (r: Result<(), RegistryError>)
        requires
            old(self)@.wf(),
        ensures
            final(self)@.wf(),
            match r {
                Ok(()) => {
                    &&& old(self)@.has_endpoint(name@)
                    &&& final(self)@.endpoints == old(self)@.endpoints.remove(
                        old(self)@.endpoint_index(name@),
                    )
                    &&& final(self)@.bindings == old(self)@.bindings.filter(
                        |b: BindingModel| b.channel_name != name@,
                    )
                    &&& final(self)@.default_name == old(self)@.default_name
                    &&& final(self)@.pending == old(self)@.pending
                    &&& !final(self)@.has_endpoint(name@)
                },
                Err(RegistryError::NotFound) => !old(self)@.has_endpoint(name@)
                    && final(self)@ == old(self)@,
                Err(_) => false,
            },
    {
        let idx = match self.find_endpoint(name) {
            Some(i) => i,
            None => {
                return Err(RegistryError::NotFound);
            }
        };
        proof {
            lemma_endpoint_index_of(self@, idx as int);
        }
        let ghost old_model = self@;
        let ghost pred = |b: BindingModel| b.channel_name != name@;
        self.endpoints.remove(idx);

        let mut kept: Vec<SessionBinding> = Vec::new();
        let n = self.bindings.len();
        let mut i: usize = 0;
        proof {
            reveal(Seq::filter);
            assert(old_model.bindings.take(0) =~= Seq::<BindingModel>::empty());
            assert(kept@.map_values(|b: SessionBinding| b@) =~= Seq::<BindingModel>::empty());
        }
        while i < n
            invariant
                i <= n,
                n == self.bindings.len(),
                self.bindings@.map_values(|b: SessionBinding| b@) == old_model.bindings,
                kept@.map_values(|b: SessionBinding| b@) == old_model.bindings.take(
                    i as int,
                ).filter(pred),
                pred == (|b: BindingModel| b.channel_name != name@),
            decreases n - i,
        {
            let ghost kept_before = kept@.map_values(|b: SessionBinding| b@);
            if !str_eq(self.bindings[i].channel_name.as_str(), name) {
                kept.push(self.bindings[i].clone());
            }
            proof {
                reveal(Seq::filter);
                let t1 = old_model.bindings.take(i + 1);
                assert(t1.drop_last() =~= old_model.bindings.take(i as int));
                assert(t1.last() == old_model.bindings[i as int]);
                if pred(old_model.bindings[i as int]) {
                    assert(kept@.map_values(|b: SessionBinding| b@) =~= kept_before.push(
                        old_model.bindings[i as int],
                    ));
                } else {
                    assert(kept@.map_values(|b: SessionBinding| b@) =~= kept_before);
                }
            }
            i += 1;
        }
        self.bindings = kept;
        proof {
            assert(old_model.bindings.take(n as int) =~= old_model.bindings);
            let m = self@;
            assert(m.endpoints =~= old_model.endpoints.remove(idx as int));
            assert(m.pending =~= old_model.pending);
            assert(m.bindings == old_model.bindings.filter(pred));

            // uniqueness of the remaining endpoint names
            assert forall|a: int, b: int|
                0 <= a < b < m.endpoints.len() implies m.endpoints[a].name != m.endpoints[b].name by {
                let a0 = if a < idx { a } else { a + 1 };
                let b0 = if b < idx { b } else { b + 1 };
                assert(m.endpoints[a] == old_model.endpoints[a0]);
                assert(m.endpoints[b] == old_model.endpoints[b0]);
            }

            // the removed name is gone
            assert forall|a: int| 0 <= a < m.endpoints.len() implies m.endpoints[a].name != name@ by {
                let a0 = if a < idx { a } else { a + 1 };
                assert(m.endpoints[a] == old_model.endpoints[a0]);
                if a0 != idx && old_model.endpoints[a0].name == name@ {
                    lemma_endpoint_index_of(old_model, a0);
                }
            }
            assert(!m.has_endpoint(name@));

            lemma_filter_subset(old_model.bindings, pred);
            lemma_filter_keys_unique(old_model.bindings, pred);

            // every kept binding still names a registered endpoint
            assert forall|a: int| 0 <= a < m.bindings.len() implies m.has_endpoint(
                #[trigger] m.bindings[a].channel_name,
            ) by {
                assert(old_model.bindings.contains(m.bindings[a]));
                let k = choose|k: int|
                    0 <= k < old_model.bindings.len() && old_model.bindings[k] == m.bindings[a];
                assert(old_model.has_endpoint(old_model.bindings[k].channel_name));
                let j = choose|j: int|
                    0 <= j < old_model.endpoints.len() && old_model.endpoints[j].name
                        == old_model.bindings[k].channel_name;
                Seq::lemma_filter_pred(old_model.bindings, pred, a);
                assert(m.bindings[a].channel_name != name@);
                assert(j != idx);
                let j_new = if j < idx { j } else { j - 1 };
                assert(m.endpoints[j_new] == old_model.endpoints[j]);
            }

            // a pending session is still not bound
            assert forall|a: int| 0 <= a < m.pending.len() implies !m.binds(
                #[trigger] m.pending[a],
            ) by {
                if m.binds(m.pending[a]) {
                    let k = choose|k: int|
                        0 <= k < m.bindings.len() && m.bindings[k].session_id == m.pending[a];
                    assert(old_model.bindings.contains(m.bindings[k]));
                    let k0 = choose|k0: int|
                        0 <= k0 < old_model.bindings.len() && old_model.bindings[k0]
                            == m.bindings[k];
                    assert(old_model.binds(old_model.pending[a]));
                }
            }
        }
        Ok(())
    }

    /// Names the default endpoint; the name must be registered.
    pub fn set_default(&mut self, name: &str) -> (r: Result<(), RegistryError>)
        requires
            old(self)@.wf(),
        ensures
            final(self)@.wf(),
            match r {
                Ok(()) => {
                    &&& old(self)@.has_endpoint(name@)
                    &&& final(self)@.default_name == name@
                    &&& final(self)@.endpoints == old(self)@.endpoints
                    &&& final(self)@.bindings == old(self)@.bindings
                    &&& final(self)@.pending == old(self)@.pending
                },
                Err(RegistryError::NotFound) => !old(self)@.has_endpoint(name@)
                    && final(self)@ == old(self)@,
                Err(_) => false,
            },
    {
        match self.find_endpoint(name) {
            Some(i) => {
                proof {
                    lemma_endpoint_index_of(self@, i as int);
                }
                self.default_name = String::from_str(name);
                proof {
                    assert(self@.endpoints =~= old(self)@.endpoints);
                    assert(self@.bindings =~= old(self)@.bindings);
                    assert(self@.pending =~= old(self)@.pending);
                }
                Ok(())
            }
            None => Err(RegistryError::NotFound),
        }
    }

    /// The default endpoint: the one named as default, else the first
    /// registered one; `NoChannelConfigured` when none is registered.
    pub fn get_default(&self) -> (r: Result<&ChannelEndpoint, RegistryError>)
        requires
            self@.wf(),
        ensures
            match r {
                Ok(e) => self@.default_endpoint() == Some(e@),
                Err(RegistryError::NoChannelConfigured) => self@.default_endpoint() is None
                    && self@.endpoints.len() == 0,
                Err(_) => false,
            },
    {
        match self.find_endpoint(self.default_name.as_str()) {
            Some(i) => {
                proof {
                    lemma_endpoint_index_of(self@, i as int);
                }
                Ok(&self.endpoints[i])
            }
            None => {
                if self.endpoints.len() > 0 {
                    Ok(&self.endpoints[0])
                } else {
                    Err(RegistryError::NoChannelConfigured)
                }
            }
        }
    }

    /// Replaces the endpoint registered under `old_name` with `endpoint`
    /// (possibly under a new name), atomically: on any refusal nothing is
    /// applied. As with `remove`, bindings to `old_name` are dropped.
    pub fn rename_or_update(&mut self, old_name: &str, endpoint: ChannelEndpoint) -> (r: Result<
        (),
        RegistryError,
    >)
        requires
            old(self)@.wf(),
        ensures
            final(self)@.wf(),
            match r {
                Ok(()) => {
                    &&& old(self)@.has_endpoint(old_name@)
                    &&& (endpoint@.name == old_name@ || !old(self)@.has_endpoint(endpoint@.name))
                    &&& final(self)@.endpoints == old(self)@.endpoints.remove(
                        old(self)@.endpoint_index(old_name@),
                    ).push(endpoint@)
                    &&& final(self)@.bindings == old(self)@.bindings.filter(
                        |b: BindingModel| b.channel_name != old_name@,
                    )
                    &&& final(self)@.default_name == old(self)@.default_name
                    &&& final(self)@.pending == old(self)@.pending
                },
                Err(RegistryError::NotFound) => !old(self)@.has_endpoint(old_name@)
                    && final(self)@ == old(self)@,
                Err(RegistryError::DuplicateName) => {
                    &&& old(self)@.has_endpoint(old_name@)
                    &&& endpoint@.name != old_name@
                    &&& old(self)@.has_endpoint(endpoint@.name)
                    &&& final(self)@ == old(self)@
                },
                Err(_) => false,
            },
    {
        if self.find_endpoint(old_name).is_none() {
            return Err(RegistryError::NotFound);
        }
        if !str_eq(endpoint.name.as_str(), old_name) {
            if let Some(_collision) = self.find_endpoint(endpoint.name.as_str()) {
                proof {
                    assert(self@.has_endpoint(endpoint@.name));
                }
                return Err(RegistryError::DuplicateName);
            }
        }
        let ghost old_model = self@;
        let ghost new_name = endpoint@.name;
        let res_remove = self.remove(old_name);
        proof {
            assert(res_remove is Ok);
            if self@.has_endpoint(new_name) {
                let a = self@.endpoint_index(new_name);
                let idx = old_model.endpoint_index(old_name@);
                let a0 = if a < idx { a } else { a + 1 };
                assert(self@.endpoints[a] == old_model.endpoints[a0]);
                assert(old_model.has_endpoint(new_name));
                if new_name == old_name@ {
                    assert(!self@.has_endpoint(old_name@));
                }
                assert(false);
            }
        }
        let res_add = self.add(endpoint);
        proof {
            assert(res_add is Ok);
        }
        Ok(())
    }

    /// Binds a session id to a named endpoint; the name must be registered.
    /// A previous binding of the same session is overwritten, and the session
    /// leaves the pending queue.
    pub fn bind_session(&mut self, session_id: &str, name: &str) -> (r: Result<
        (),
        RegistryError,
    >)
        requires
            old(self)@.wf(),
        ensures
            final(self)@.wf(),
            match r {
                Ok(()) => {
                    &&& old(self)@.has_endpoint(name@)
                    &&& final(self)@.binds(session_id@)
                    &&& final(self)@.bound_name(session_id@) == name@
                    &&& final(self)@.bindings == if old(self)@.binds(session_id@) {
                        old(self)@.bindings.update(
                            old(self)@.binding_index(session_id@),
                            BindingModel { session_id: session_id@, channel_name: name@ },
                        )
                    } else {
                        old(self)@.bindings.push(
                            BindingModel { session_id: session_id@, channel_name: name@ },
                        )
                    }
                    &&& final(self)@.pending == if old(self)@.is_pending(session_id@) {
                        old(self)@.pending.remove(old(self)@.pending_index(session_id@))
                    } else {
                        old(self)@.pending
                    }
                    &&& !final(self)@.is_pending(session_id@)
                    &&& final(self)@.endpoints == old(self)@.endpoints
                    &&& final(self)@.default_name == old(self)@.default_name
                },
                Err(RegistryError::NotFound) => !old(self)@.has_endpoint(name@)
                    && final(self)@ == old(self)@,
                Err(_) => false,
            },
    {
        if self.find_endpoint(name).is_none() {
            return Err(RegistryError::NotFound);
        }
        let ghost old_model = self@;
        let ghost new_binding = BindingModel { session_id: session_id@, channel_name: name@ };

        match self.find_binding(session_id) {
            Some(i) => {
                proof {
                    lemma_binding_index_of(old_model, i as int);
                }
                let entry = SessionBinding {
                    session_id: String::from_str(session_id),
                    channel_name: String::from_str(name),
                };
                self.bindings.set(i, entry);
                proof {
                    assert(self@.bindings =~= old_model.bindings.update(i as int, new_binding));
                    assert(self@.endpoints =~= old_model.endpoints);
                    assert(self@.pending =~= old_model.pending);
                }
            }
            None => {
                let entry = SessionBinding {
                    session_id: String::from_str(session_id),
                    channel_name: String::from_str(name),
                };
                self.bindings.push(entry);
                proof {
                    assert(self@.bindings =~= old_model.bindings.push(new_binding));
                    assert(self@.endpoints =~= old_model.endpoints);
                    assert(self@.pending =~= old_model.pending);
                }
            }
        }

        proof {
            let m = self@;
            assert forall|a: int, b: int|
                0 <= a < b < m.bindings.len() implies m.bindings[a].session_id
                != m.bindings[b].session_id by {
                if old_model.binds(session_id@) {
                    let i = old_model.binding_index(session_id@);
                    if a != i {
                        assert(m.bindings[a] == old_model.bindings[a]);
                    }
                    if b != i {
                        assert(m.bindings[b] == old_model.bindings[b]);
                    }
                } else {
                    if b < old_model.bindings.len() {
                        assert(m.bindings[a] == old_model.bindings[a]);
                        assert(m.bindings[b] == old_model.bindings[b]);
                    } else {
                        assert(m.bindings[a] == old_model.bindings[a]);
                        assert(m.bindings[b] == new_binding);
                        assert(!old_model.binds(session_id@));
                        if old_model.bindings[a].session_id == session_id@ {
                            assert(old_model.binds(session_id@));
                        }
                    }
                }
            }
            assert forall|a: int| 0 <= a < m.bindings.len() implies m.has_endpoint(
                #[trigger] m.bindings[a].channel_name,
            ) by {
                if old_model.binds(session_id@) && a == old_model.binding_index(session_id@) {
                    assert(m.bindings[a] == new_binding);
                } else if a < old_model.bindings.len() {
                    assert(m.bindings[a] == old_model.bindings[a]);
                    assert(old_model.has_endpoint(old_model.bindings[a].channel_name));
                } else {
                    assert(m.bindings[a] == new_binding);
                }
            }
            let bi = choose|i: int|
                0 <= i < m.bindings.len() && m.bindings[i].session_id == session_id@;
            assert(m.binds(session_id@)) by {
                if old_model.binds(session_id@) {
                    let i = old_model.binding_index(session_id@);
                    assert(m.bindings[i] == new_binding);
                } else {
                    assert(m.bindings[m.bindings.len() - 1] == new_binding);
                }
            }
            assert(m.bound_name(session_id@) == name@) by {
                if old_model.binds(session_id@) {
                    let i = old_model.binding_index(session_id@);
                    assert(m.bindings[i] == new_binding);
                    if m.binding_index(session_id@) != i {
                        let j = m.binding_index(session_id@);
                        assert(m.bindings[j].session_id == session_id@);
                        assert(old_model.bindings[j].session_id == session_id@);
                        lemma_binding_index_of(old_model, j);
                    }
                } else {
                    let last = m.bindings.len() - 1;
                    assert(m.bindings[last] == new_binding);
                    let j = m.binding_index(session_id@);
                    assert(m.bindings[j].session_id == session_id@);
                    if j != last {
                        assert(m.bindings[j] == old_model.bindings[j]);
                        assert(old_model.binds(session_id@));
                    }
                }
            }
        }

        // the session is no longer pending
        let ghost mid_model = self@;
        match self.find_pending(session_id) {
            Some(p) => {
                proof {
                    lemma_pending_index_of(old_model, p as int);
                }
                self.pending.remove(p);
                proof {
                    assert(self@.pending =~= old_model.pending.remove(p as int));
                    assert(self@.endpoints =~= mid_model.endpoints);
                    assert(self@.bindings =~= mid_model.bindings);
                }
            }
            None => {
                proof {
                    assert(self@.pending =~= old_model.pending);
                }
            }
        }

        proof {
            let m = self@;
            if old_model.is_pending(session_id@) {
                let p = old_model.pending_index(session_id@);
                assert forall|a: int, b: int|
                    0 <= a < b < m.pending.len() implies m.pending[a] != m.pending[b] by {
                    let a0 = if a < p { a } else { a + 1 };
                    let b0 = if b < p { b } else { b + 1 };
                    assert(m.pending[a] == old_model.pending[a0]);
                    assert(m.pending[b] == old_model.pending[b0]);
                }
                assert forall|a: int| 0 <= a < m.pending.len() implies m.pending[a]
                    != session_id@ by {
                    let a0 = if a < p { a } else { a + 1 };
                    assert(m.pending[a] == old_model.pending[a0]);
                    if a0 != p && old_model.pending[a0] == session_id@ {
                        lemma_pending_index_of(old_model, a0);
                    }
                }
                assert(!m.is_pending(session_id@)) by {
                    if m.is_pending(session_id@) {
                        let a = choose|a: int|
                            0 <= a < m.pending.len() && m.pending[a] == session_id@;
                        assert(m.pending[a] == session_id@);
                    }
                }
            } else {
                assert(!m.is_pending(session_id@)) by {
                    if m.is_pending(session_id@) {
                        let a = choose|a: int|
                            0 <= a < m.pending.len() && m.pending[a] == session_id@;
                        assert(old_model.pending[a] == session_id@);
                        assert(old_model.is_pending(session_id@));
                    }
                }
            }
            assert forall|a: int| 0 <= a < m.pending.len() implies !m.binds(
                #[trigger] m.pending[a],
            ) by {
                let q = m.pending[a];
                assert(old_model.is_pending(q)) by {
                    if old_model.is_pending(session_id@) {
                        let p = old_model.pending_index(session_id@);
                        let a0 = if a < p { a } else { a + 1 };
                        assert(m.pending[a] == old_model.pending[a0]);
                    } else {
                        assert(m.pending[a] == old_model.pending[a]);
                    }
                }
                assert(q != session_id@);
                if m.binds(q) {
                    let k = choose|k: int|
                        0 <= k < m.bindings.len() && m.bindings[k].session_id == q;
                    if old_model.binds(session_id@) {
                        let i = old_model.binding_index(session_id@);
                        if k != i {
                            assert(m.bindings[k] == old_model.bindings[k]);
                            assert(old_model.binds(q));
                        } else {
                            assert(m.bindings[k].session_id == session_id@);
                        }
                    } else {
                        if k < old_model.bindings.len() {
                            assert(m.bindings[k] == old_model.bindings[k]);
                            assert(old_model.binds(q));
                        } else {
                            assert(m.bindings[k].session_id == session_id@);
                        }
                    }
                    assert(!old_model.binds(q));
                    assert(false);
                }
            }
        }
        Ok(())
    }

    /// Removes a session's binding; the session must be bound.
    pub fn unbind_session(&mut self, session_id: &str) -> (r: Result<(), RegistryError>)
        requires
            old(self)@.wf(),
        ensures
            final(self)@.wf(),
            match r {
                Ok(()) => {
                    &&& old(self)@.binds(session_id@)
                    &&& final(self)@.bindings == old(self)@.bindings.remove(
                        old(self)@.binding_index(session_id@),
                    )
                    &&& !final(self)@.binds(session_id@)
                    &&& final(self)@.endpoints == old(self)@.endpoints
                    &&& final(self)@.default_name == old(self)@.default_name
                    &&& final(self)@.pending == old(self)@.pending
                },
                Err(RegistryError::NotFound) => !old(self)@.binds(session_id@)
                    && final(self)@ == old(self)@,
                Err(_) => false,
            },
    {
        let i = match self.find_binding(session_id) {
            Some(i) => i,
            None => {
                return Err(RegistryError::NotFound);
            }
        };
        proof {
            lemma_binding_index_of(self@, i as int);
        }
        let ghost old_model = self@;
        self.bindings.remove(i);
        proof {
            assert(self@.bindings =~= old_model.bindings.remove(i as int));
            assert(self@.endpoints =~= old_model.endpoints);
            assert(self@.pending =~= old_model.pending);
            let m = self@;
            assert forall|a: int, b: int|
                0 <= a < b < m.bindings.len() implies m.bindings[a].session_id
                != m.bindings[b].session_id by {
                let a0 = if a < i { a } else { a + 1 };
                let b0 = if b < i { b } else { b + 1 };
                assert(m.bindings[a] == old_model.bindings[a0]);
                assert(m.bindings[b] == old_model.bindings[b0]);
            }
            assert forall|a: int| 0 <= a < m.bindings.len() implies m.has_endpoint(
                #[trigger] m.bindings[a].channel_name,
            ) by {
                let a0 = if a < i { a } else { a + 1 };
                assert(m.bindings[a] == old_model.bindings[a0]);
                assert(old_model.has_endpoint(old_model.bindings[a0].channel_name));
            }
            assert forall|a: int| 0 <= a < m.bindings.len() implies m.bindings[a].session_id
                != session_id@ by {
                let a0 = if a < i { a } else { a + 1 };
                assert(m.bindings[a] == old_model.bindings[a0]);
                if a0 != i as int && old_model.bindings[a0].session_id == session_id@ {
                    lemma_binding_index_of(old_model, a0);
                }
            }
            assert(!m.binds(session_id@));
            assert forall|a: int| 0 <= a < m.pending.len() implies !m.binds(
                #[trigger] m.pending[a],
            ) by {
                if m.binds(m.pending[a]) {
                    let k = choose|k: int|
                        0 <= k < m.bindings.len() && m.bindings[k].session_id == m.pending[a];
                    let k0 = if k < i { k } else { k + 1 };
                    assert(m.bindings[k] == old_model.bindings[k0]);
                    assert(old_model.binds(old_model.pending[a]));
                }
            }
        }
        Ok(())
    }

    /// The endpoint a session is bound to, if any. The registry invariant
    /// guarantees the bound name resolves.
    pub fn resolve_for_session(&self, session_id: &str) -> (r: Option<&ChannelEndpoint>)
        requires
            self@.wf(),
        ensures
            match r {
                Some(e) => self@.binds(session_id@) && e@ == self@.endpoint_named(
                    self@.bound_name(session_id@),
                ),
                None => !self@.binds(session_id@),
            },
    {
        let i = match self.find_binding(session_id) {
            Some(i) => i,
            None => {
                return None;
            }
        };
        proof {
            lemma_binding_index_of(self@, i as int);
        }
        match self.find_endpoint(self.bindings[i].channel_name.as_str()) {
            Some(j) => {
                proof {
                    lemma_endpoint_index_of(self@, j as int);
                }
                Some(&self.endpoints[j])
            }
            None => {
                proof {
                    assert(self@.has_endpoint(self@.bindings[i as int].channel_name));
                    assert(false);
                }
                None
            }
        }
    }

    /// Queues a session id for manual binding. Recording an already-pending
    /// or already-bound session changes nothing.
    pub fn record_pending(&mut self, session_id: &str)
        requires
            old(self)@.wf(),
        ensures
            final(self)@.wf(),
            final(self)@.endpoints == old(self)@.endpoints,
            final(self)@.default_name == old(self)@.default_name,
            final(self)@.bindings == old(self)@.bindings,
            final(self)@.pending == if old(self)@.is_pending(session_id@) || old(self)@.binds(
                session_id@,
            ) {
                old(self)@.pending
            } else {
                old(self)@.pending.push(session_id@)
            },
            !old(self)@.binds(session_id@) ==> final(self)@.is_pending(session_id@),
    {
        let ghost old_model = self@;
        if self.find_pending(session_id).is_some() {
            proof {
                let i = choose|i: int|
                    0 <= i < self@.pending.len() && self@.pending[i] == session_id@;
                assert(self@.is_pending(session_id@));
            }
            return ;
        }
        if self.find_binding(session_id).is_some() {
            proof {
                let i = choose|i: int|
                    0 <= i < self@.bindings.len() && self@.bindings[i].session_id == session_id@;
                assert(self@.binds(session_id@));
            }
            return ;
        }
        self.pending.push(String::from_str(session_id));
        proof {
            assert(self@.pending =~= old_model.pending.push(session_id@));
            assert(self@.endpoints =~= old_model.endpoints);
            assert(self@.bindings =~= old_model.bindings);
            let m = self@;
            assert forall|a: int, b: int|
                0 <= a < b < m.pending.len() implies m.pending[a] != m.pending[b] by {
                if b < old_model.pending.len() {
                    assert(m.pending[a] == old_model.pending[a]);
                    assert(m.pending[b] == old_model.pending[b]);
                } else {
                    assert(m.pending[a] == old_model.pending[a]);
                    assert(m.pending[b] == session_id@);
                    if old_model.pending[a] == session_id@ {
                        assert(old_model.is_pending(session_id@));
                    }
                }
            }
            assert forall|a: int| 0 <= a < m.pending.len() implies !m.binds(
                #[trigger] m.pending[a],
            ) by {
                if a < old_model.pending.len() {
                    assert(m.pending[a] == old_model.pending[a]);
                    assert(!old_model.binds(old_model.pending[a]));
                } else {
                    assert(m.pending[a] == session_id@);
                }
            }
            assert(m.pending[m.pending.len() - 1] == session_id@);
            assert(m.is_pending(session_id@));
        }
    }

    /// Removes a session id from the pending queue; reports whether it was
    /// there.
    pub fn dequeue_pending(&mut self, session_id: &str) -> (r: bool)
        requires
            old(self)@.wf(),
        ensures
            final(self)@.wf(),
            final(self)@.endpoints == old(self)@.endpoints,
            final(self)@.default_name == old(self)@.default_name,
            final(self)@.bindings == old(self)@.bindings,
            r == old(self)@.is_pending(session_id@),
            final(self)@.pending == if old(self)@.is_pending(session_id@) {
                old(self)@.pending.remove(old(self)@.pending_index(session_id@))
            } else {
                old(self)@.pending
            },
            !final(self)@.is_pending(session_id@),
    {
        let ghost old_model = self@;
        let i = match self.find_pending(session_id) {
            Some(i) => i,
            None => {
                return false;
            }
        };
        proof {
            lemma_pending_index_of(old_model, i as int);
        }
        self.pending.remove(i);
        proof {
            assert(self@.pending =~= old_model.pending.remove(i as int));
            assert(self@.endpoints =~= old_model.endpoints);
            assert(self@.bindings =~= old_model.bindings);
            let m = self@;
            assert forall|a: int, b: int|
                0 <= a < b < m.pending.len() implies m.pending[a] != m.pending[b] by {
                let a0 = if a < i { a } else { a + 1 };
                let b0 = if b < i { b } else { b + 1 };
                assert(m.pending[a] == old_model.pending[a0]);
                assert(m.pending[b] == old_model.pending[b0]);
            }
            assert forall|a: int| 0 <= a < m.pending.len() implies !m.binds(
                #[trigger] m.pending[a],
            ) by {
                let a0 = if a < i { a } else { a + 1 };
                assert(m.pending[a] == old_model.pending[a0]);
                assert(!old_model.binds(old_model.pending[a0]));
            }
            assert forall|a: int| 0 <= a < m.pending.len() implies m.pending[a] != session_id@ by {
                let a0 = if a < i { a } else { a + 1 };
                assert(m.pending[a] == old_model.pending[a0]);
                if a0 != i as int && old_model.pending[a0] == session_id@ {
                    lemma_pending_index_of(old_model, a0);
                }
            }
            assert(!m.is_pending(session_id@));
        }
        true
    }
}

} // verus!

//! Browse sessions, cursors, and bounded page caching.
//!
//! Callers see identifiers of the gateway only. A session remembers what they
//! stand for at the OPC server.

use crate::browse::session::{copy_page, owned, same_optional, PageBinding, PageKey, Session};
use crate::collections::StrMap;
use crate::numerals::push_decimal;
use crate::opc::{BrowseNode, BrowsePage};
use crate::text::{copy_text, same_text};
use crate::time::{Duration, Instant};
use crate::tokens::fresh_tokens;
use vstd::prelude::*;

pub mod session;

verus! {

pub const DEFAULT_PAGE_SIZE: u32 = 200;

pub const MAX_PAGE_SIZE: u32 = 1_000;

pub const MAX_ACTIVE_SESSIONS: usize = 128;

/// How long an unused session lasts, in seconds.
pub const SESSION_TTL_SECONDS: u64 = 60;

/// The kinds of failures that a caller can tell apart.
#[derive(Debug, Clone, Copy, PartialEq, Eq, Structural)]
pub enum BrowseCode {
    InvalidArgument,
    NotFound,
    FailedPrecondition,
    ResourceExhausted,
    Internal,
    Unavailable,
}

#[derive(Debug, Clone, PartialEq, Eq)]
pub struct BrowseError {
    pub code: BrowseCode,
    pub message: String,
}

/// What a failure says.
pub struct Refusal {
    pub code: BrowseCode,
    pub message: Seq<char>,
}

impl View for BrowseError {
    type V = Refusal;

    open spec fn view(&self) -> Refusal {
        Refusal { code: self.code, message: self.message@ }
    }
}

fn refuse(code: BrowseCode, message: &str) -> (error: BrowseError)
    ensures
        error@ == (Refusal { code, message: message@ }),
{
    BrowseError { code, message: message.to_owned() }
}

/// The failure of an operation at the OPC server.
pub fn operation_error(message: String) -> (error: BrowseError)
    ensures
        error@ == (Refusal { code: BrowseCode::Unavailable, message: message@ }),
{
    BrowseError { code: BrowseCode::Unavailable, message }
}

/// What `normalize_page_size` makes of a size.
pub open spec fn normal_page_size(page_size: u32) -> u32 {
    if page_size == 0 {
        DEFAULT_PAGE_SIZE
    } else {
        page_size
    }
}

pub open spec fn page_size_refusal() -> Refusal {
    Refusal {
        code: BrowseCode::InvalidArgument,
        message: "page_size must be between 1 and "@ + crate::numerals::decimal(
            MAX_PAGE_SIZE as nat,
        ),
    }
}

/// The size of a page: the default where none is asked for. Larger pages than
/// allowed are refused.
pub fn normalize_page_size(page_size: u32) -> (size: Result<u32, BrowseError>)
    ensures
        size matches Ok(size) ==> size == normal_page_size(page_size),
        size matches Err(error) ==> error@ == page_size_refusal(),
        size is Ok == (normal_page_size(page_size) <= MAX_PAGE_SIZE),
        size is Ok == (page_size <= 1_000),
{
    let page_size: u32 = if page_size == 0 {
        DEFAULT_PAGE_SIZE
    } else {
        page_size
    };
    if page_size > MAX_PAGE_SIZE {
        let mut message = "page_size must be between 1 and ".to_owned();
        push_decimal(&mut message, MAX_PAGE_SIZE as u128);
        return Err(BrowseError { code: BrowseCode::InvalidArgument, message });
    }
    Ok(page_size)
}

/// Whether a session was unused for too long.
pub open spec fn is_expired(session: Session, now: Instant) -> bool {
    session.last_used.nanos + Duration::of_secs(SESSION_TTL_SECONDS).nanos < now.nanos
}

fn expired(session: &Session, now: Instant) -> (old: bool)
    ensures
        old == is_expired(*session, now),
{
    let ttl = Duration::from_secs(SESSION_TTL_SECONDS);
    now.nanos > ttl.nanos && session.last_used.nanos < now.nanos - ttl.nanos
}

/// What a browse request needs once its session is known.
#[derive(Debug)]
pub enum PageLookup {
    /// The page is cached.
    Cached(BrowsePage),
    /// The page is to be fetched.
    Fetch {
        native_session_id: String,
        native_parent_key: Option<String>,
        native_page_token: Option<String>,
    },
}

/// Why a request for a page is refused by its session.
pub open spec fn lookup_refusal(
    session: Session,
    server: Seq<char>,
    parent: Option<Seq<char>>,
    token: Option<Seq<char>>,
    page_size: u32,
) -> Option<Refusal> {
    if session.server@ != server {
        Some(
            Refusal {
                code: BrowseCode::FailedPrecondition,
                message: "browse session belongs to a different OPC server"@,
            },
        )
    } else if parent is Some && !session.node_bindings@.contains_key(parent->0) {
        Some(
            Refusal { code: BrowseCode::NotFound, message: "browse parent node not found"@ },
        )
    } else if token is Some && !session.page_bindings@.contains_key(token->0) {
        Some(
            Refusal {
                code: BrowseCode::FailedPrecondition,
                message: "invalid browse page token"@,
            },
        )
    } else if token is Some && session.page_bindings@[token->0].page_size != page_size {
        Some(
            Refusal {
                code: BrowseCode::FailedPrecondition,
                message: "browse page token was created for a different page size"@,
            },
        )
    } else if token is Some && crate::text::optional_view(
        session.page_bindings@[token->0].parent_node_key,
    ) != parent {
        Some(
            Refusal {
                code: BrowseCode::FailedPrecondition,
                message: "browse page token is bound to a different parent"@,
            },
        )
    } else {
        None
    }
}

pub open spec fn unknown_session() -> Refusal {
    Refusal { code: BrowseCode::NotFound, message: "browse session not found or expired"@ }
}

pub open spec fn closed_session() -> Refusal {
    Refusal { code: BrowseCode::NotFound, message: "browse session closed during browse"@ }
}

pub open spec fn too_many_sessions() -> Refusal {
    Refusal {
        code: BrowseCode::ResourceExhausted,
        message: "maximum active browse sessions reached"@,
    }
}

pub open spec fn too_many_nodes() -> Refusal {
    Refusal {
        code: BrowseCode::ResourceExhausted,
        message: "maximum browse nodes per session reached"@,
    }
}

/// A session once the pages and cursors of a parent were forgotten.
pub open spec fn invalidated(
    before: Session,
    after: Session,
    parent: Option<Seq<char>>,
) -> bool {
    let bindings = crate::browse::session::bindings_of_others(before.page_bindings@, parent);
    &&& after == (Session {
        pages: after.pages,
        page_bindings: after.page_bindings,
        page_binding_order: after.page_binding_order,
        ..before
    })
    &&& after.pages@ == before.pages@.filter(crate::browse::session::of_other_parents(parent))
    &&& after.page_bindings@ == bindings
    &&& after.page_binding_order@ == before.page_binding_order@.filter(
        crate::browse::session::still_bound(bindings),
    )
}

/// Why a page of the OPC server cannot be passed on.
pub open spec fn page_refusal(page: BrowsePage) -> Option<Refusal> {
    if page.complete && page.next_page_token is Some {
        Some(
            Refusal {
                code: BrowseCode::Internal,
                message: "OPC client returned a complete browse page with a continuation token"@,
            },
        )
    } else if !page.complete && page.next_page_token is None {
        Some(
            Refusal {
                code: BrowseCode::Internal,
                message:
                    "OPC client returned an incomplete browse page without a continuation token"@,
            },
        )
    } else {
        None
    }
}

/// Whether a page of the OPC server can be passed on: it is complete exactly if
/// no cursor comes with it.
pub fn check_native_page(page: &BrowsePage) -> (result: Result<(), BrowseError>)
    ensures
        result is Ok == page_refusal(*page) is None,
        result matches Err(error) ==> error@ == page_refusal(*page)->0,
{
    if page.complete && page.next_page_token.is_some() {
        return Err(
            refuse(
                BrowseCode::Internal,
                "OPC client returned a complete browse page with a continuation token",
            ),
        );
    }
    if !page.complete && page.next_page_token.is_none() {
        return Err(
            refuse(
                BrowseCode::Internal,
                "OPC client returned an incomplete browse page without a continuation token",
            ),
        );
    }
    Ok(())
}

/// Whether a page shows the nodes of another under identifiers of the gateway.
pub open spec fn translates(
    page: BrowsePage,
    native: BrowsePage,
    tokens: Seq<String>,
) -> bool {
    &&& page.nodes@.len() == native.nodes@.len()
    &&& forall|i: int|
        0 <= i < page.nodes@.len() ==> (#[trigger] page.nodes@[i]) == (BrowseNode {
            node_key: tokens[i],
            ..native.nodes@[i]
        })
    &&& page.next_page_token == (if native.next_page_token is Some {
        Some(tokens[native.nodes@.len() as int])
    } else {
        None
    })
    &&& page.complete == native.complete
    &&& page.organization == native.organization
    &&& page.source == native.source
    &&& page.warning == native.warning
}

/// A session once a page was recorded in it: its nodes and its cursor are
/// bound, and the page is cached.
pub open spec fn recorded(
    before: Session,
    after: Session,
    key: PageKey,
    native: BrowsePage,
    tokens: Seq<String>,
    page: BrowsePage,
) -> bool {
    let count = native.nodes@.len() as int;
    &&& translates(page, native, tokens)
    &&& after.server == before.server
    &&& after.native_session_id == before.native_session_id
    &&& after.last_used == before.last_used
    &&& after.node_bindings@ == crate::browse::session::bound_nodes(
        before.node_bindings@,
        tokens,
        native.nodes@,
    )
    &&& match native.next_page_token {
        Some(native_token) => exists|binding: PageBinding|
            #[trigger] binds(binding, native_token, key) && after.page_bindings@
                == crate::browse::session::unbound(
                before.page_bindings@.insert(tokens[count]@, binding),
                before.page_binding_order@.push(tokens[count]),
            ) && after.page_binding_order@ == crate::browse::session::newest(
                before.page_binding_order@.push(tokens[count]),
                crate::browse::session::MAX_PAGE_BINDINGS_PER_SESSION as nat,
            ),
        None => after.page_bindings@ == before.page_bindings@ && after.page_binding_order@
            == before.page_binding_order@,
    }
    &&& exists|copy: BrowsePage|
        #[trigger] crate::browse::session::same_page(copy, page) && after.pages@
            == crate::browse::session::with_page(before.pages@, key, copy)
}

/// Whether a binding stands for a cursor of the OPC server and holds a page's
/// parent and size.
pub open spec fn binds(binding: PageBinding, native_token: String, key: PageKey) -> bool {
    &&& binding.native_page_token == native_token
    &&& crate::text::optional_view(binding.parent_node_key) == key@.parent_node_key
    &&& binding.page_size == key.page_size
}

/// The open sessions.
pub struct BrowseManager {
    pub sessions: StrMap<Session>,
}

/// A session that was given up for want of use.
pub struct ExpiredSession {
    pub session_id: String,
    pub session: Session,
}

impl BrowseManager {
    /// Every session is well-formed, and there are not too many of them.
    pub open spec fn wf(self) -> bool {
        &&& self.sessions.wf()
        &&& self.sessions@.dom().finite()
        &&& self.sessions@.dom().len() <= MAX_ACTIVE_SESSIONS
        &&& forall|id: Seq<char>| #[trigger]
            self.sessions@.contains_key(id) ==> self.sessions@[id].wf()
    }

    pub fn new() -> (manager: Self)
        ensures
            manager.wf(),
            manager.sessions@ == Map::<Seq<char>, Session>::empty(),
    {
        BrowseManager { sessions: StrMap::new() }
    }

    /// Takes out the sessions that were unused for too long.
    pub fn remove_expired(&mut self, now: Instant) -> (gone: Vec<ExpiredSession>)
        requires
            old(self).wf(),
        ensures
            final(self).wf(),
            forall|id: Seq<char>| #[trigger]
                final(self).sessions@.contains_key(id) <==> old(self).sessions@.contains_key(id)
                    && !is_expired(old(self).sessions@[id], now),
            forall|id: Seq<char>| #[trigger]
                final(self).sessions@.contains_key(id) ==> final(self).sessions@[id] == old(
                    self,
                ).sessions@[id],
            forall|i: int|
                0 <= i < gone@.len() ==> {
                    let entry = #[trigger] gone@[i];
                    &&& old(self).sessions@.contains_key(entry.session_id@)
                    &&& entry.session == old(self).sessions@[entry.session_id@]
                    &&& is_expired(entry.session, now)
                },
            forall|id: Seq<char>| #[trigger]
                old(self).sessions@.contains_key(id) && is_expired(old(self).sessions@[id], now)
                    ==> exists|i: int|
                    0 <= i < gone@.len() && (#[trigger] gone@[i]).session_id@ == id,
            forall|i: int, j: int|
                0 <= i < j < gone@.len() ==> (#[trigger] gone@[i]).session_id@ != (
                #[trigger] gone@[j]).session_id@,
    {
        let ghost before = self.sessions@;
        let keys = self.sessions.keys();
        let ghost names = crate::text::texts(keys@);
        let mut gone: Vec<ExpiredSession> = Vec::new();
        let mut i: usize = 0;
        while i < keys.len()
            invariant
                i <= keys.len(),
                self.wf(),
                names == crate::text::texts(keys@),
                before == old(self).sessions@,
                forall|id: Seq<char>| before.contains_key(id) == #[trigger] names.contains(id),
                forall|id: Seq<char>| #[trigger]
                    self.sessions@.contains_key(id) ==> before.contains_key(id)
                        && self.sessions@[id] == before[id],
                forall|id: Seq<char>| #[trigger]
                    before.contains_key(id) && !is_expired(before[id], now)
                        ==> self.sessions@.contains_key(id),
                forall|j: int|
                    0 <= j < i && self.sessions@.contains_key((#[trigger] keys@[j])@)
                        ==> !is_expired(self.sessions@[keys@[j]@], now),
                forall|k: int|
                    0 <= k < gone@.len() ==> {
                        let entry = #[trigger] gone@[k];
                        &&& before.contains_key(entry.session_id@)
                        &&& entry.session == before[entry.session_id@]
                        &&& is_expired(entry.session, now)
                        &&& !self.sessions@.contains_key(entry.session_id@)
                    },
                forall|id: Seq<char>| #[trigger]
                    before.contains_key(id) && !self.sessions@.contains_key(id) ==> exists|
                        k: int,
                    |
                        0 <= k < gone@.len() && (#[trigger] gone@[k]).session_id@ == id,
                forall|a: int, b: int|
                    0 <= a < b < gone@.len() ==> (#[trigger] gone@[a]).session_id@ != (
                    #[trigger] gone@[b]).session_id@,
            decreases keys.len() - i,
        {
            let stale = match self.sessions.get(keys[i].as_str()) {
                Some(session) => expired(session, now),
                None => false,
            };
            if stale {
                let ghost sessions = self.sessions@;
                let ghost listed = gone@;
                match self.sessions.take(keys[i].as_str()) {
                    Some(session) => {
                        gone.push(ExpiredSession { session_id: keys[i].clone(), session });
                    },
                    None => {},
                }
                proof {
                    let name = keys@[i as int]@;
                    assert(gone@[listed.len() as int].session_id@ == name);
                    assert forall|id: Seq<char>| #[trigger]
                        before.contains_key(id) && !self.sessions@.contains_key(
                            id,
                        ) implies exists|k: int|
                        0 <= k < gone@.len() && (#[trigger] gone@[k]).session_id@ == id by {
                        if id != name {
                            assert(!sessions.contains_key(id));
                            let k = choose|k: int|
                                0 <= k < listed.len() && (#[trigger] listed[k]).session_id@ == id;
                            assert(gone@[k].session_id@ == id);
                        }
                    }
                }
            }
            i += 1;
        }
        proof {
            assert forall|id: Seq<char>| #[trigger] self.sessions@.contains_key(id) implies !is_expired(
                before[id],
                now,
            ) by {
                assert(names.contains(id));
                let j = choose|j: int| 0 <= j < names.len() && names[j] == id;
                assert(keys@[j]@ == id);
            }
        }
        gone
    }

    /// Whether another session may be opened.
    pub fn check_capacity(&self) -> (result: Result<(), BrowseError>)
        requires
            self.wf(),
        ensures
            result is Ok == (self.sessions@.dom().len() < MAX_ACTIVE_SESSIONS),
            result is Ok == (self.sessions@.dom().len() < 128),
            result matches Err(error) ==> error@ == too_many_sessions(),
    {
        if self.sessions.len() >= MAX_ACTIVE_SESSIONS {
            return Err(
                refuse(BrowseCode::ResourceExhausted, "maximum active browse sessions reached"),
            );
        }
        Ok(())
    }

    /// Admits a session that the OPC server has opened, under an identifier. If
    /// there are too many by now, the native session is to be closed again.
    pub fn admit_session(
        &mut self,
        session_id: &str,
        server: &str,
        native_session_id: String,
        now: Instant,
    ) -> (result: Result<(), BrowseError>)
        requires
            old(self).wf(),
        ensures
            final(self).wf(),
            result is Ok == (old(self).sessions@.dom().len() < MAX_ACTIVE_SESSIONS),
            result matches Err(error) ==> error@ == too_many_sessions() && *final(self) == *old(
                self,
            ),
            result is Ok ==> {
                let session = final(self).sessions@[session_id@];
                &&& final(self).sessions@ == old(self).sessions@.insert(session_id@, session)
                &&& is_fresh(session, server@, native_session_id, now)
            },
    {
        match self.check_capacity() {
            Ok(_) => {},
            Err(error) => return Err(error),
        }
        let session = Session::new(server.to_owned(), native_session_id, now);
        self.sessions.insert(session_id, session);
        Ok(())
    }

    /// Admits a session that the OPC server has opened, under a random
    /// identifier, which is returned.
    pub fn open_session(
        &mut self,
        server: &str,
        native_session_id: String,
        now: Instant,
    ) -> (opened: Result<String, BrowseError>)
        requires
            old(self).wf(),
        ensures
            final(self).wf(),
            opened is Ok == (old(self).sessions@.dom().len() < MAX_ACTIVE_SESSIONS),
            opened is Ok == (old(self).sessions@.dom().len() < 128),
            opened matches Err(error) ==> error@ == too_many_sessions() && *final(self) == *old(
                self,
            ),
            opened matches Ok(id) ==> {
                let session = final(self).sessions@[id@];
                &&& crate::tokens::is_token(id@)
                &&& final(self).sessions@ == old(self).sessions@.insert(id@, session)
                &&& is_fresh(session, server@, native_session_id, now)
            },
    {
        let session_id = crate::tokens::new_token();
        match self.admit_session(session_id.as_str(), server, native_session_id, now) {
            Ok(_) => Ok(session_id),
            Err(error) => Err(error),
        }
    }

    /// What a browse request asks for, before any session is looked at: the
    /// size of the page. A cursor cannot be refreshed.
    pub fn check_request(page_size: u32, has_page_token: bool, refresh: bool) -> (size: Result<
        u32,
        BrowseError,
    >)
        ensures
            size is Ok == (normal_page_size(page_size) <= MAX_PAGE_SIZE && !(refresh
                && has_page_token)),
            size is Ok == (page_size <= 1_000 && !(refresh && has_page_token)),
            size matches Ok(size) ==> size == normal_page_size(page_size),
            size matches Ok(size) ==> 1 <= size && (page_size > 0 ==> size == page_size),
            size matches Err(error) ==> error@ == (if normal_page_size(page_size)
                > MAX_PAGE_SIZE {
                page_size_refusal()
            } else {
                Refusal {
                    code: BrowseCode::InvalidArgument,
                    message: "refresh cannot be combined with a browse page token"@,
                }
            }),
    {
        let size: u32 = match normalize_page_size(page_size) {
            Ok(size) => size,
            Err(error) => return Err(error),
        };
        if refresh && has_page_token {
            return Err(
                refuse(
                    BrowseCode::InvalidArgument,
                    "refresh cannot be combined with a browse page token",
                ),
            );
        }
        Ok(size)
    }

    /// Looks a page up in its session: it is cached, or it is to be fetched
    /// under the identifiers of the OPC server. A refresh first forgets what
    /// was seen of the parent's children.
    pub fn lookup_page(
        &mut self,
        server: &str,
        session_id: &str,
        parent_node_key: Option<&str>,
        page_token: Option<&str>,
        page_size: u32,
        refresh: bool,
        now: Instant,
    ) -> (lookup: Result<PageLookup, BrowseError>)
        requires
            old(self).wf(),
        ensures
            final(self).wf(),
            !old(self).sessions@.contains_key(session_id@) ==> *final(self) == *old(self) && (
            lookup matches Err(error) && error@ == unknown_session()),
            old(self).sessions@.contains_key(session_id@) ==> {
                let before = old(self).sessions@[session_id@];
                let after = final(self).sessions@[session_id@];
                let parent = crate::text::optional_str_view(parent_node_key);
                let token = crate::text::optional_str_view(page_token);
                let refusal = lookup_refusal(before, server@, parent, token, page_size);
                let touched = Session { last_used: now, ..before };
                let key = crate::browse::session::PageKeyView {
                    parent_node_key: parent,
                    page_token: token,
                    page_size,
                };
                let cached = crate::browse::session::cached_page(before.pages@, key);
                &&& lookup is Err == refusal is Some
                &&& lookup matches Err(error) ==> error@ == refusal->0
                &&& before.server@ != server@ ==> *final(self) == *old(self)
                &&& final(self).sessions@ =~= old(self).sessions@.insert(session_id@, after)
                &&& before.server@ == server@ && (refusal is Some || !refresh) ==> after
                    == touched
                &&& refusal is None && refresh ==> invalidated(touched, after, parent)
                &&& lookup matches Ok(PageLookup::Cached(page)) ==> !refresh && cached is Some
                    && crate::browse::session::same_page(page, cached->0)
                &&& lookup matches Ok(
                    PageLookup::Fetch { native_session_id, native_parent_key, native_page_token },
                ) ==> {
                    &&& refresh || cached is None
                    &&& native_session_id == before.native_session_id
                    &&& native_parent_key == (match parent {
                        Some(parent) => Some(before.node_bindings@[parent]),
                        None => None,
                    })
                    &&& native_page_token == (match token {
                        Some(token) => Some(before.page_bindings@[token].native_page_token),
                        None => None,
                    })
                }
            },
    {
        let found = match self.sessions.get(session_id) {
            Some(session) => same_text(session.server.as_str(), server),
            None => {
                return Err(
                    refuse(BrowseCode::NotFound, "browse session not found or expired"),
                );
            },
        };
        if !found {
            assert(self.sessions@ =~= self.sessions@.insert(
                session_id@,
                self.sessions@[session_id@],
            ));
            return Err(
                refuse(
                    BrowseCode::FailedPrecondition,
                    "browse session belongs to a different OPC server",
                ),
            );
        }
        let ghost sessions = self.sessions@;
        match self.sessions.take(session_id) {
            Some(session) => {
                let mut session = session;
                session.touch(now);
                let lookup = lookup_in(&mut session, parent_node_key, page_token, page_size, refresh);
                self.sessions.insert(session_id, session);
                proof {
                    assert(self.sessions@ =~= sessions.insert(session_id@, session));
                }
                lookup
            },
            None => Err(refuse(BrowseCode::NotFound, "browse session not found or expired")),
        }
    }

    /// Looks once more for a page when the session is free: another request may
    /// have fetched it in the meantime.
    pub fn recheck_page(
        &mut self,
        session_id: &str,
        key: &PageKey,
        refresh: bool,
        now: Instant,
    ) -> (page: Result<Option<BrowsePage>, BrowseError>)
        requires
            old(self).wf(),
        ensures
            final(self).wf(),
            page is Err == !old(self).sessions@.contains_key(session_id@),
            page matches Err(error) ==> error@ == closed_session() && final(self).sessions@ == old(
                self,
            ).sessions@,
            page matches Ok(page) ==> {
                let before = old(self).sessions@[session_id@];
                let cached = crate::browse::session::cached_page(before.pages@, key@);
                &&& final(self).sessions@ == old(self).sessions@.insert(
                    session_id@,
                    Session { last_used: now, ..before },
                )
                &&& page is Some == (!refresh && cached is Some)
                &&& page matches Some(page) ==> crate::browse::session::same_page(
                    page,
                    cached->0,
                )
            },
    {
        let ghost sessions = self.sessions@;
        match self.sessions.take(session_id) {
            Some(session) => {
                let mut session = session;
                session.touch(now);
                let page = if refresh {
                    None
                } else {
                    session.find_page(key)
                };
                self.sessions.insert(session_id, session);
                assert(self.sessions@ =~= sessions.insert(session_id@, session));
                Ok(page)
            },
            None => {
                assert(self.sessions@ =~= sessions);
                Err(refuse(BrowseCode::NotFound, "browse session closed during browse"))
            },
        }
    }

    /// Records a page that the OPC server has delivered, under identifiers of
    /// the gateway: one for each node, in order, and one for the cursor.
    pub fn record_page(
        &mut self,
        session_id: &str,
        key: PageKey,
        native: BrowsePage,
        tokens: Vec<String>,
        now: Instant,
    ) -> (page: Result<BrowsePage, BrowseError>)
        requires
            old(self).wf(),
            tokens@.len() > native.nodes@.len(),
        ensures
            final(self).wf(),
            page matches Ok(shown) ==> shown.nodes@.len() == native.nodes@.len() && forall|i: int|
                0 <= i < native.nodes@.len() ==> {
                    &&& (#[trigger] shown.nodes@[i]).display_name == native.nodes@[i].display_name
                    &&& shown.nodes@[i].kind == native.nodes@[i].kind
                    &&& shown.nodes@[i].item_id == native.nodes@[i].item_id
                },
            page matches Ok(shown) ==> {
                &&& shown.next_page_token is Some == native.next_page_token is Some
                &&& shown.complete == native.complete
                &&& shown.organization == native.organization
                &&& shown.source == native.source
                &&& shown.warning == native.warning
            },
            !old(self).sessions@.contains_key(session_id@) ==> final(self).sessions@ == old(
                self,
            ).sessions@ && (page matches Err(error) && error@ == closed_session()),
            old(self).sessions@.contains_key(session_id@) ==> {
                let before = old(self).sessions@[session_id@];
                let after = final(self).sessions@[session_id@];
                let touched = Session { last_used: now, ..before };
                &&& final(self).sessions@ == old(self).sessions@.insert(session_id@, after)
                &&& page is Err == (before.node_bindings@.dom().len() + native.nodes@.len()
                    > crate::browse::session::MAX_NODE_BINDINGS_PER_SESSION)
                &&& page is Err == (before.node_bindings@.dom().len() + native.nodes@.len()
                    > 100_000)
                &&& page matches Err(error) ==> error@ == too_many_nodes() && after == touched
                &&& page matches Ok(page) ==> recorded(
                    touched,
                    after,
                    key,
                    native,
                    tokens@,
                    page,
                )
            },
    {
        let ghost sessions = self.sessions@;
        match self.sessions.take(session_id) {
            Some(session) => {
                let mut session = session;
                session.touch(now);
                let page = record_in(&mut session, key, native, &tokens);
                self.sessions.insert(session_id, session);
                assert(self.sessions@ =~= sessions.insert(session_id@, session));
                page
            },
            None => {
                assert(self.sessions@ =~= sessions);
                Err(refuse(BrowseCode::NotFound, "browse session closed during browse"))
            },
        }
    }

    /// Checks and records a page that the OPC server has delivered, under
    /// random identifiers.
    pub fn store_page(
        &mut self,
        session_id: &str,
        key: PageKey,
        native: BrowsePage,
        now: Instant,
    ) -> (page: Result<BrowsePage, BrowseError>)
        requires
            old(self).wf(),
            native.nodes@.len() < usize::MAX,
        ensures
            final(self).wf(),
            page matches Ok(shown) ==> shown.nodes@.len() == native.nodes@.len() && forall|i: int|
                0 <= i < native.nodes@.len() ==> {
                    &&& (#[trigger] shown.nodes@[i]).display_name == native.nodes@[i].display_name
                    &&& shown.nodes@[i].kind == native.nodes@[i].kind
                    &&& shown.nodes@[i].item_id == native.nodes@[i].item_id
                },
            page matches Ok(shown) ==> {
                &&& shown.next_page_token is Some == native.next_page_token is Some
                &&& shown.complete == native.complete
                &&& shown.organization == native.organization
                &&& shown.source == native.source
                &&& shown.warning == native.warning
            },
            page_refusal(native) is Some ==> *final(self) == *old(self) && (page matches Err(error)
                && error@ == page_refusal(native)->0),
            page_refusal(native) is None && !old(self).sessions@.contains_key(session_id@)
                ==> final(self).sessions@ == old(self).sessions@ && (page matches Err(error)
                && error@ == closed_session()),
            page_refusal(native) is None && old(self).sessions@.contains_key(session_id@) ==> {
                let before = old(self).sessions@[session_id@];
                let after = final(self).sessions@[session_id@];
                let touched = Session { last_used: now, ..before };
                &&& final(self).sessions@ == old(self).sessions@.insert(session_id@, after)
                &&& page is Err == (before.node_bindings@.dom().len() + native.nodes@.len()
                    > crate::browse::session::MAX_NODE_BINDINGS_PER_SESSION)
                &&& page is Err == (before.node_bindings@.dom().len() + native.nodes@.len()
                    > 100_000)
                &&& page matches Err(error) ==> error@ == too_many_nodes() && after == touched
                &&& page matches Ok(page) ==> exists|tokens: Seq<String>|
                    #[trigger] all_tokens(tokens) && tokens.len() > native.nodes@.len() && recorded(
                        touched,
                        after,
                        key,
                        native,
                        tokens,
                        page,
                    )
            },
    {
        match check_native_page(&native) {
            Ok(_) => {},
            Err(error) => return Err(error),
        }
        let tokens = fresh_tokens(native.nodes.len() + 1);
        assert(all_tokens(tokens@));
        self.record_page(session_id, key, native, tokens, now)
    }

    /// Whether a session is closed again once its request is answered: one that
    /// was opened for the request alone does not outlive its failure.
    pub fn closes_after_request(opened_for_request: bool, failed: bool) -> (closes: bool)
        ensures
            closes == (opened_for_request && failed),
    {
        opened_for_request && failed
    }

    /// Begins to close a session: which native one is to be closed with it.
    pub fn begin_close(&self, session_id: &str) -> (native_session_id: Result<String, BrowseError>)
        ensures
            native_session_id is Ok == self.sessions@.contains_key(session_id@),
            native_session_id matches Ok(id) ==> id == self.sessions@[session_id@].native_session_id,
            native_session_id matches Err(error) ==> error@ == unknown_session(),
    {
        match self.sessions.get(session_id) {
            Some(session) => Ok(session.native_session_id.clone()),
            None => Err(refuse(BrowseCode::NotFound, "browse session not found or expired")),
        }
    }

    /// Closes a session. Another request may have closed it already.
    pub fn close_session(&mut self, session_id: &str) -> (result: Result<(), BrowseError>)
        requires
            old(self).wf(),
        ensures
            final(self).wf(),
            final(self).sessions@ == old(self).sessions@.remove(session_id@),
            result is Ok == old(self).sessions@.contains_key(session_id@),
            result matches Err(error) ==> error@ == unknown_session(),
    {
        match self.sessions.take(session_id) {
            Some(_) => Ok(()),
            None => Err(refuse(BrowseCode::NotFound, "browse session not found or expired")),
        }
    }
}

/// Whether all texts have the form of random identifiers.
pub open spec fn all_tokens(tokens: Seq<String>) -> bool {
    forall|i: int| 0 <= i < tokens.len() ==> crate::tokens::is_token((#[trigger] tokens[i])@)
}

proof fn binding_grows_slowly(
    bindings: Map<Seq<char>, String>,
    tokens: Seq<String>,
    nodes: Seq<BrowseNode>,
)
    requires
        bindings.dom().finite(),
    ensures
        crate::browse::session::bound_nodes(bindings, tokens, nodes).dom().finite(),
        crate::browse::session::bound_nodes(bindings, tokens, nodes).dom().len()
            <= bindings.dom().len() + nodes.len(),
    decreases nodes.len(),
{
    if nodes.len() > 0 {
        binding_grows_slowly(bindings, tokens, nodes.drop_last());
        let fewer = crate::browse::session::bound_nodes(bindings, tokens, nodes.drop_last());
        let token = tokens[nodes.len() - 1]@;
        assert(fewer.insert(token, nodes.last().node_key).dom() =~= fewer.dom().insert(token));
    }
}

/// Records a page in its session.
fn record_in(
    session: &mut Session,
    key: PageKey,
    native: BrowsePage,
    tokens: &Vec<String>,
) -> (page: Result<BrowsePage, BrowseError>)
    requires
        old(session).wf(),
        tokens@.len() > native.nodes@.len(),
    ensures
        final(session).wf(),
        page is Err == (old(session).node_bindings@.dom().len() + native.nodes@.len()
            > crate::browse::session::MAX_NODE_BINDINGS_PER_SESSION),
        page matches Err(error) ==> error@ == too_many_nodes() && *final(session) == *old(session),
        page matches Ok(page) ==> recorded(
            *old(session),
            *final(session),
            key,
            native,
            tokens@,
            page,
        ),
{
    let limit: usize = crate::browse::session::MAX_NODE_BINDINGS_PER_SESSION;
    let count: usize = native.nodes.len();
    if count > limit || session.node_bindings.len() > limit - count {
        return Err(
            refuse(BrowseCode::ResourceExhausted, "maximum browse nodes per session reached"),
        );
    }
    let mut nodes: Vec<BrowseNode> = Vec::new();
    let mut i: usize = 0;
    while i < count
        invariant
            i <= count,
            count == native.nodes@.len(),
            tokens@.len() > count,
            nodes@.len() == i,
            *session == (Session { node_bindings: session.node_bindings, ..*old(session) }),
            session.node_bindings@ == crate::browse::session::bound_nodes(
                old(session).node_bindings@,
                tokens@,
                native.nodes@.take(i as int),
            ),
            forall|j: int|
                0 <= j < i ==> (#[trigger] nodes@[j]) == (BrowseNode {
                    node_key: tokens@[j],
                    ..native.nodes@[j]
                }),
        decreases count - i,
    {
        let node = &native.nodes[i];
        let node_key = tokens[i].clone();
        session.node_bindings.insert(node_key.clone(), node.node_key.clone());
        nodes.push(
            BrowseNode {
                node_key,
                display_name: node.display_name.clone(),
                kind: node.kind,
                item_id: copy_text(&node.item_id),
            },
        );
        proof {
            let more = native.nodes@.take(i + 1);
            assert(more.drop_last() =~= native.nodes@.take(i as int));
            assert(more.last() == native.nodes@[i as int]);
        }
        i += 1;
    }
    proof {
        assert(native.nodes@.take(count as int) =~= native.nodes@);
        binding_grows_slowly(old(session).node_bindings@, tokens@, native.nodes@);
    }
    let next_page_token: Option<String> = match &native.next_page_token {
        Some(native_token) => {
            let token = tokens[count].clone();
            let binding = PageBinding {
                native_page_token: native_token.clone(),
                parent_node_key: copy_text(&key.parent_node_key),
                page_size: key.page_size,
            };
            assert(binds(binding, *native_token, key));
            session.bind_page(token.clone(), binding);
            Some(token)
        },
        None => None,
    };
    let page = BrowsePage {
        nodes,
        next_page_token,
        complete: native.complete,
        organization: native.organization,
        source: native.source,
        warning: native.warning,
    };
    let copy = copy_page(&page);
    assert(crate::browse::session::same_page(copy, page));
    session.cache_page(key, copy);
    Ok(page)
}

/// Whether a session is new.
pub open spec fn is_fresh(
    session: Session,
    server: Seq<char>,
    native_session_id: String,
    now: Instant,
) -> bool {
    &&& session.server@ == server
    &&& session.native_session_id == native_session_id
    &&& session.last_used == now
    &&& session.node_bindings@ == Map::<Seq<char>, String>::empty()
    &&& session.page_bindings@ == Map::<Seq<char>, PageBinding>::empty()
    &&& session.page_binding_order@ == Seq::<String>::empty()
    &&& session.pages@ == Seq::<(PageKey, BrowsePage)>::empty()
}

/// Looks a page up in a session of the right server.
fn lookup_in(
    session: &mut Session,
    parent_node_key: Option<&str>,
    page_token: Option<&str>,
    page_size: u32,
    refresh: bool,
) -> (lookup: Result<PageLookup, BrowseError>)
    requires
        old(session).wf(),
    ensures
        final(session).wf(),
        ({
            let before = *old(session);
            let parent = crate::text::optional_str_view(parent_node_key);
            let token = crate::text::optional_str_view(page_token);
            let refusal = lookup_refusal(before, before.server@, parent, token, page_size);
            let key = crate::browse::session::PageKeyView {
                parent_node_key: parent,
                page_token: token,
                page_size,
            };
            let cached = crate::browse::session::cached_page(before.pages@, key);
            &&& lookup is Err == refusal is Some
            &&& lookup matches Err(error) ==> error@ == refusal->0
            &&& refusal is Some || !refresh ==> *final(session) == before
            &&& refusal is None && refresh ==> invalidated(before, *final(session), parent)
            &&& lookup matches Ok(PageLookup::Cached(page)) ==> !refresh && cached is Some
                && crate::browse::session::same_page(page, cached->0)
            &&& lookup matches Ok(
                PageLookup::Fetch { native_session_id, native_parent_key, native_page_token },
            ) ==> {
                &&& refresh || cached is None
                &&& native_session_id == before.native_session_id
                &&& native_parent_key == (match parent {
                    Some(parent) => Some(before.node_bindings@[parent]),
                    None => None,
                })
                &&& native_page_token == (match token {
                    Some(token) => Some(before.page_bindings@[token].native_page_token),
                    None => None,
                })
            }
        }),
{
    let parent = owned(parent_node_key);
    let native_parent_key: Option<String> = match parent_node_key {
        Some(key) => match session.node_bindings.get(key) {
            Some(native) => Some(native.clone()),
            None => {
                return Err(refuse(BrowseCode::NotFound, "browse parent node not found"));
            },
        },
        None => None,
    };
    let native_page_token: Option<String> = match page_token {
        Some(token) => match session.page_bindings.get(token) {
            Some(binding) => {
                if binding.page_size != page_size {
                    return Err(
                        refuse(
                            BrowseCode::FailedPrecondition,
                            "browse page token was created for a different page size",
                        ),
                    );
                }
                if !same_optional(&binding.parent_node_key, &parent) {
                    return Err(
                        refuse(
                            BrowseCode::FailedPrecondition,
                            "browse page token is bound to a different parent",
                        ),
                    );
                }
                Some(binding.native_page_token.clone())
            },
            None => {
                return Err(
                    refuse(BrowseCode::FailedPrecondition, "invalid browse page token"),
                );
            },
        },
        None => None,
    };
    if refresh {
        session.invalidate_parent(&parent);
    } else {
        let key = PageKey { parent_node_key: parent, page_token: owned(page_token), page_size };
        match session.find_page(&key) {
            Some(page) => return Ok(PageLookup::Cached(page)),
            None => {},
        }
    }
    Ok(
        PageLookup::Fetch {
            native_session_id: session.native_session_id.clone(),
            native_parent_key,
            native_page_token,
        },
    )
}

proof fn found_at_the_end(
    pages: Seq<(PageKey, BrowsePage)>,
    key: crate::browse::session::PageKeyView,
)
    requires
        pages.len() > 0,
        pages.last().0@ == key,
        forall|i: int| 0 <= i < pages.len() - 1 ==> (#[trigger] pages[i]).0@ != key,
    ensures
        crate::browse::session::cached_page(pages, key) == Some(pages.last().1),
    decreases pages.len(),
{
    if pages.len() > 1 {
        assert(pages[0].0@ != key);
        let rest = pages.drop_first();
        assert(rest.last() == pages.last());
        assert forall|i: int| 0 <= i < rest.len() - 1 implies (#[trigger] rest[i]).0@ != key by {
            assert(pages[i + 1].0@ != key);
        }
        found_at_the_end(rest, key);
    }
}

/// A recorded page is found again under its key.
pub proof fn recorded_page_is_cached(
    before: Session,
    after: Session,
    key: PageKey,
    native: BrowsePage,
    tokens: Seq<String>,
    page: BrowsePage,
)
    requires
        recorded(before, after, key, native, tokens, page),
    ensures
        crate::browse::session::cached_page(after.pages@, key@) is Some,
        crate::browse::session::same_page(
            crate::browse::session::cached_page(after.pages@, key@)->0,
            page,
        ),
{
    let copy = choose|copy: BrowsePage|
        #[trigger] crate::browse::session::same_page(copy, page) && after.pages@
            == crate::browse::session::with_page(before.pages@, key, copy);
    let keep = crate::browse::session::of_other_keys(key@);
    let kept = before.pages@.filter(keep);
    let full = kept.push((key, copy));
    assert forall|i: int| 0 <= i < kept.len() implies (#[trigger] kept[i]).0@ != key@ by {
        before.pages@.lemma_filter_pred(keep, i);
    }
    let left = after.pages@;
    assert(left.last() == full.last());
    assert forall|i: int| 0 <= i < left.len() - 1 implies (#[trigger] left[i]).0@ != key@ by {
        assert(left[i] == kept[i + full.len() - left.len()]);
    }
    found_at_the_end(left, key@);
}

proof fn unlisted_cursor_stays_bound(
    bindings: Map<Seq<char>, PageBinding>,
    order: Seq<String>,
    token: Seq<char>,
)
    requires
        bindings.contains_key(token),
        order.len() > 0,
        forall|i: int| 0 <= i < order.len() - 1 ==> (#[trigger] order[i])@ != token,
    ensures
        crate::browse::session::unbound(bindings, order).contains_key(token),
        crate::browse::session::unbound(bindings, order)[token] == bindings[token],
    decreases order.len(),
{
    if order.len() > crate::browse::session::MAX_PAGE_BINDINGS_PER_SESSION {
        assert(order[0]@ != token);
        let rest = order.drop_first();
        assert forall|i: int| 0 <= i < rest.len() - 1 implies (#[trigger] rest[i])@ != token by {
            assert(order[i + 1]@ != token);
        }
        unlisted_cursor_stays_bound(bindings.remove(order[0]@), rest, token);
    }
}

/// The cursor that a recorded page comes with, if it is a new one, stands for
/// the native cursor from then on: with the same parent and size it is
/// accepted, and leads to it.
pub proof fn issued_cursor_is_accepted(
    before: Session,
    after: Session,
    key: PageKey,
    native: BrowsePage,
    tokens: Seq<String>,
    page: BrowsePage,
)
    requires
        recorded(before, after, key, native, tokens, page),
        native.next_page_token is Some,
        !crate::browse::session::listed(
            before.page_binding_order@,
            tokens[native.nodes@.len() as int]@,
        ),
        key@.parent_node_key matches Some(parent) ==> after.node_bindings@.contains_key(parent),
    ensures
        page.next_page_token is Some,
        lookup_refusal(
            after,
            after.server@,
            key@.parent_node_key,
            Some((page.next_page_token->0)@),
            key.page_size,
        ) is None,
        after.page_bindings@[(page.next_page_token->0)@].native_page_token
            == native.next_page_token->0,
{
    let token = tokens[native.nodes@.len() as int];
    let binding = choose|binding: PageBinding|
        #[trigger] binds(binding, native.next_page_token->0, key) && after.page_bindings@
            == crate::browse::session::unbound(
            before.page_bindings@.insert(token@, binding),
            before.page_binding_order@.push(token),
        );
    let order = before.page_binding_order@.push(token);
    assert forall|i: int| 0 <= i < order.len() - 1 implies (#[trigger] order[i])@ != token@ by {
        assert(order[i] == before.page_binding_order@[i]);
    }
    unlisted_cursor_stays_bound(before.page_bindings@.insert(token@, binding), order, token@);
}

proof fn distinct_tokens_stay_bound(
    bindings: Map<Seq<char>, String>,
    tokens: Seq<String>,
    nodes: Seq<BrowseNode>,
    at: int,
)
    requires
        0 <= at < nodes.len() <= tokens.len(),
        forall|i: int, j: int|
            0 <= i < j < nodes.len() ==> (#[trigger] tokens[i])@ != (#[trigger] tokens[j])@,
    ensures
        crate::browse::session::bound_nodes(bindings, tokens, nodes).contains_key(tokens[at]@),
        crate::browse::session::bound_nodes(bindings, tokens, nodes)[tokens[at]@]
            == nodes[at].node_key,
    decreases nodes.len(),
{
    if at < nodes.len() - 1 {
        assert(tokens[at]@ != tokens[nodes.len() - 1]@);
        distinct_tokens_stay_bound(bindings, tokens, nodes.drop_last(), at);
    }
}

/// A node of a recorded page, if all identifiers are different, stands for the
/// native node in its place, so that its children can be browsed.
pub proof fn issued_node_is_accepted(
    before: Session,
    after: Session,
    key: PageKey,
    native: BrowsePage,
    tokens: Seq<String>,
    page: BrowsePage,
    at: int,
    page_size: u32,
)
    requires
        recorded(before, after, key, native, tokens, page),
        tokens.len() > native.nodes@.len(),
        0 <= at < page.nodes@.len(),
        forall|i: int, j: int|
            0 <= i < j < native.nodes@.len() ==> (#[trigger] tokens[i])@ != (
            #[trigger] tokens[j])@,
    ensures
        lookup_refusal(after, after.server@, Some(page.nodes@[at].node_key@), None, page_size)
            is None,
        after.node_bindings@[page.nodes@[at].node_key@] == native.nodes@[at].node_key,
{
    distinct_tokens_stay_bound(before.node_bindings@, tokens, native.nodes@, at);
    assert(page.nodes@[at].node_key == tokens[at]);
}

/// After a refresh neither a page nor a cursor of the parent is left, and those
/// of other parents stay.
pub proof fn refresh_forgets_the_parent(
    before: Session,
    after: Session,
    parent: Option<Seq<char>>,
    key: crate::browse::session::PageKeyView,
    token: Seq<char>,
)
    requires
        invalidated(before, after, parent),
    ensures
        key.parent_node_key == parent ==> crate::browse::session::cached_page(
            after.pages@,
            key,
        ) is None,
        after.page_bindings@.contains_key(token) ==> crate::text::optional_view(
            after.page_bindings@[token].parent_node_key,
        ) != parent,
        before.page_bindings@.contains_key(token) && crate::text::optional_view(
            before.page_bindings@[token].parent_node_key,
        ) != parent ==> after.page_bindings@.contains_key(token) && after.page_bindings@[token]
            == before.page_bindings@[token],
{
    if key.parent_node_key == parent {
        let keep = crate::browse::session::of_other_parents(parent);
        let left = after.pages@;
        assert forall|i: int| 0 <= i < left.len() implies (#[trigger] left[i]).0@ != key by {
            before.pages@.lemma_filter_pred(keep, i);
        }
        found_nowhere(left, key);
    }
}

proof fn found_nowhere(
    pages: Seq<(PageKey, BrowsePage)>,
    key: crate::browse::session::PageKeyView,
)
    requires
        forall|i: int| 0 <= i < pages.len() ==> (#[trigger] pages[i]).0@ != key,
    ensures
        crate::browse::session::cached_page(pages, key) is None,
    decreases pages.len(),
{
    if pages.len() > 0 {
        assert(pages[0].0@ != key);
        let rest = pages.drop_first();
        assert forall|i: int| 0 <= i < rest.len() implies (#[trigger] rest[i]).0@ != key by {
            assert(pages[i + 1].0@ != key);
        }
        found_nowhere(rest, key);
    }
}

/// A recorded page shows what the OPC server has delivered: as many nodes, and
/// each with the name, the kind and the item ID of the native node in its place.
/// Only the identifiers of the nodes and of the cursor are the gateway's, and a
/// cursor comes with it exactly if one came with the native page. So does the
/// copy that answers later requests.
pub proof fn recorded_pages_show_the_native_nodes(
    before: Session,
    after: Session,
    key: PageKey,
    native: BrowsePage,
    tokens: Seq<String>,
    page: BrowsePage,
)
    requires
        recorded(before, after, key, native, tokens, page),
    ensures
        shows(page, native),
        crate::browse::session::cached_page(after.pages@, key@) is Some,
        shows(crate::browse::session::cached_page(after.pages@, key@)->0, native),
        forall|i: int|
            0 <= i < native.nodes@.len() ==> (#[trigger] page.nodes@[i]).node_key == tokens[i],
        native.next_page_token is Some ==> page.next_page_token == Some(
            tokens[native.nodes@.len() as int],
        ),
{
    recorded_page_is_cached(before, after, key, native, tokens, page);
}

/// Whether a page says of its nodes what another says.
pub open spec fn shows(page: BrowsePage, native: BrowsePage) -> bool {
    &&& page.nodes@.len() == native.nodes@.len()
    &&& forall|i: int|
        0 <= i < native.nodes@.len() ==> {
            &&& (#[trigger] page.nodes@[i]).display_name == native.nodes@[i].display_name
            &&& page.nodes@[i].kind == native.nodes@[i].kind
            &&& page.nodes@[i].item_id == native.nodes@[i].item_id
        }
    &&& page.next_page_token is Some == native.next_page_token is Some
    &&& page.complete == native.complete
    &&& page.organization == native.organization
    &&& page.source == native.source
    &&& page.warning == native.warning
}

/// A session serves its own server only, the children of nodes that it has
/// shown, and the cursors that it has handed out, each with the size and the
/// parent of the page that it came with; and refuses nothing else. A node that
/// it does not know is not found; everything else that it refuses was asked for
/// in the wrong place.
pub proof fn sessions_serve_what_they_have_shown(
    session: Session,
    server: Seq<char>,
    parent: Option<Seq<char>>,
    token: Option<Seq<char>>,
    page_size: u32,
)
    ensures
        ({
            let refusal = lookup_refusal(session, server, parent, token, page_size);
            let own = session.server@ == server;
            let shown = parent is None || session.node_bindings@.contains_key(parent->0);
            let issued = token is None || session.page_bindings@.contains_key(token->0);
            let binding = session.page_bindings@[token->0];
            let fits = token is None || (binding.page_size == page_size
                && crate::text::optional_view(binding.parent_node_key) == parent);
            &&& refusal is None <==> own && shown && issued && fits
            &&& own && !shown ==> refusal is Some && (refusal->0).code == BrowseCode::NotFound
            &&& refusal is Some && (!own || shown) ==> (refusal->0).code
                == BrowseCode::FailedPrecondition
        }),
{
}

/// A session lasts as long as it is used, and for a minute more.
pub proof fn sessions_last_a_minute(session: Session, now: Instant)
    ensures
        is_expired(session, now) <==> now.nanos - session.last_used.nanos > 60_000_000_000,
{
}

/// A page has the size that was asked for, and 200 nodes where none was.
pub proof fn sizes_are_kept(page_size: u32)
    ensures
        page_size > 0 ==> normal_page_size(page_size) == page_size,
        page_size == 0 ==> normal_page_size(page_size) == 200,
{
}

/// A page that the OPC server calls complete comes without a cursor and any
/// other with one; whatever else it delivers is passed on to nobody.
pub proof fn contradictory_pages_are_refused(page: BrowsePage)
    ensures
        page_refusal(page) is None <==> page.complete != page.next_page_token is Some,
        page_refusal(page) is Some ==> (page_refusal(page)->0).code == BrowseCode::Internal,
{
}

/// A node that was shown before keeps its meaning while later pages are
/// recorded under other identifiers.
pub proof fn shown_nodes_stay_bound(
    before: Session,
    after: Session,
    key: PageKey,
    native: BrowsePage,
    tokens: Seq<String>,
    page: BrowsePage,
    node_key: Seq<char>,
)
    requires
        recorded(before, after, key, native, tokens, page),
        before.node_bindings@.contains_key(node_key),
        forall|i: int| 0 <= i < native.nodes@.len() ==> (#[trigger] tokens[i])@ != node_key,
    ensures
        after.node_bindings@.contains_key(node_key),
        after.node_bindings@[node_key] == before.node_bindings@[node_key],
{
    other_nodes_stay_bound(before.node_bindings@, tokens, native.nodes@, node_key);
}

proof fn other_nodes_stay_bound(
    bindings: Map<Seq<char>, String>,
    tokens: Seq<String>,
    nodes: Seq<BrowseNode>,
    node_key: Seq<char>,
)
    requires
        bindings.contains_key(node_key),
        forall|i: int| 0 <= i < nodes.len() ==> (#[trigger] tokens[i])@ != node_key,
    ensures
        crate::browse::session::bound_nodes(bindings, tokens, nodes).contains_key(node_key),
        crate::browse::session::bound_nodes(bindings, tokens, nodes)[node_key]
            == bindings[node_key],
    decreases nodes.len(),
{
    if nodes.len() > 0 {
        other_nodes_stay_bound(bindings, tokens, nodes.drop_last(), node_key);
        assert(tokens[nodes.len() - 1]@ != node_key);
    }
}

/// A cursor that was handed out before keeps its meaning while a page is
/// recorded, if it is not the oldest of as many as a session keeps and the new
/// cursor is another.
pub proof fn cursors_stay_bound(
    before: Session,
    after: Session,
    key: PageKey,
    native: BrowsePage,
    tokens: Seq<String>,
    page: BrowsePage,
    cursor: Seq<char>,
)
    requires
        before.wf(),
        recorded(before, after, key, native, tokens, page),
        before.page_bindings@.contains_key(cursor),
        tokens[native.nodes@.len() as int]@ != cursor,
        before.page_binding_order@.len() < 256 || before.page_binding_order@[0]@ != cursor,
    ensures
        after.page_bindings@.contains_key(cursor),
        after.page_bindings@[cursor] == before.page_bindings@[cursor],
{
    if native.next_page_token is Some {
        let token = tokens[native.nodes@.len() as int];
        let order = before.page_binding_order@.push(token);
        let binding = choose|binding: PageBinding|
            #[trigger] binds(binding, native.next_page_token->0, key) && after.page_bindings@
                == crate::browse::session::unbound(
                before.page_bindings@.insert(token@, binding),
                order,
            );
        reveal_with_fuel(crate::browse::session::unbound, 3);
        let left = before.page_bindings@.insert(token@, binding);
        if order.len() > 256 {
            assert(order[0] == before.page_binding_order@[0]);
            assert(order.drop_first().len() == 256);
        }
    }
}

/// Recording a page leaves every other cached page where it was, but for the
/// oldest where there are as many as a session keeps.
pub proof fn cached_pages_stay(
    before: Session,
    after: Session,
    key: PageKey,
    native: BrowsePage,
    tokens: Seq<String>,
    page: BrowsePage,
    at: int,
)
    requires
        before.wf(),
        recorded(before, after, key, native, tokens, page),
        0 <= at < before.pages@.len(),
        before.pages@[at].0@ != key@,
        at > 0 || before.pages@.len() < 256,
    ensures
        after.pages@.contains(before.pages@[at]),
{
    let copy = choose|copy: BrowsePage|
        #[trigger] crate::browse::session::same_page(copy, page) && after.pages@
            == crate::browse::session::with_page(before.pages@, key, copy);
    let keep = crate::browse::session::of_other_keys(key@);
    let kept = before.pages@.filter(keep);
    let full = kept.push((key, copy));
    filtered_where(before.pages@, keep, at);
    let where_kept = choose|k: int|
        0 <= k < kept.len() && kept[k] == before.pages@[at] && k >= at - (before.pages@.len()
            - kept.len());
    let dropped = full.len() - after.pages@.len();
    assert(kept.len() <= before.pages@.len());
    assert(full[where_kept] == before.pages@[at]);
    assert(after.pages@[where_kept - dropped] == before.pages@[at]);
}

proof fn filtered_where<T>(entries: Seq<T>, keep: spec_fn(T) -> bool, at: int)
    requires
        0 <= at < entries.len(),
        keep(entries[at]),
    ensures
        entries.filter(keep).len() <= entries.len(),
        exists|k: int|
            0 <= k < entries.filter(keep).len() && #[trigger] entries.filter(keep)[k]
                == entries[at] && k >= at - (entries.len() - entries.filter(keep).len()),
    decreases entries.len(),
{
    reveal(Seq::filter);
    let front = entries.drop_last();
    assert(front.filter(keep).len() <= front.len()) by {
        front.lemma_filter_len(keep);
    }
    if at == entries.len() - 1 {
        let last = entries.filter(keep).len() - 1;
        assert(entries.filter(keep)[last] == entries[at]);
    } else {
        filtered_where(front, keep, at);
        let k = choose|k: int|
            0 <= k < front.filter(keep).len() && #[trigger] front.filter(keep)[k] == front[at]
                && k >= at - (front.len() - front.filter(keep).len());
        assert(entries.filter(keep)[k] == entries[at]);
    }
}

/// A new session has shown nothing yet: at its own server it serves the top, and
/// neither the children of a node nor a cursor; and no page of it is cached.
pub proof fn new_sessions_have_shown_nothing(
    session: Session,
    server: Seq<char>,
    native_session_id: String,
    now: Instant,
    node: Seq<char>,
    cursor: Seq<char>,
    page_size: u32,
    key: crate::browse::session::PageKeyView,
)
    requires
        is_fresh(session, server, native_session_id, now),
    ensures
        lookup_refusal(session, server, None, None, page_size) is None,
        lookup_refusal(session, server, Some(node), None, page_size) is Some,
        lookup_refusal(session, server, None, Some(cursor), page_size) is Some,
        crate::browse::session::cached_page(session.pages@, key) is None,
        session.native_session_id == native_session_id,
        !is_expired(session, now),
{
}

/// The cached page under a key is the first that was cached under it.
pub proof fn cached_pages_are_found_by_their_key(
    pages: Seq<(PageKey, BrowsePage)>,
    at: int,
    key: crate::browse::session::PageKeyView,
)
    requires
        0 <= at < pages.len(),
        pages[at].0@ == key,
        forall|i: int| 0 <= i < at ==> (#[trigger] pages[i]).0@ != key,
    ensures
        crate::browse::session::cached_page(pages, key) == Some(pages[at].1),
    decreases at,
{
    if at > 0 {
        assert(pages[0].0@ != key);
        let rest = pages.drop_first();
        assert forall|i: int| 0 <= i < at - 1 implies (#[trigger] rest[i]).0@ != key by {
            assert(pages[i + 1].0@ != key);
        }
        cached_pages_are_found_by_their_key(rest, at - 1, key);
    }
}

/// Recording a page leaves the session what it is: of the same server, with the
/// same native session, used when it was. Its cursors stay in the order in which
/// they were handed out, the new one last.
pub proof fn recording_keeps_the_session(
    before: Session,
    after: Session,
    key: PageKey,
    native: BrowsePage,
    tokens: Seq<String>,
    page: BrowsePage,
)
    requires
        recorded(before, after, key, native, tokens, page),
    ensures
        after.server@ == before.server@,
        after.native_session_id@ == before.native_session_id@,
        after.last_used == before.last_used,
        native.next_page_token is None ==> after.page_binding_order@ == before.page_binding_order@
            && after.page_bindings@ == before.page_bindings@,
        native.next_page_token is Some && before.page_binding_order@.len() < 256
            ==> after.page_binding_order@ == before.page_binding_order@.push(
            tokens[native.nodes@.len() as int],
        ),
        native.next_page_token is Some && before.page_binding_order@.len() == 256
            ==> after.page_binding_order@ == before.page_binding_order@.skip(1).push(
            tokens[native.nodes@.len() as int],
        ),
{
    if native.next_page_token is Some && before.page_binding_order@.len() == 256 {
        let token = tokens[native.nodes@.len() as int];
        assert(before.page_binding_order@.push(token).skip(1) =~= before.page_binding_order@.skip(
            1,
        ).push(token));
    }
}

/// Forgetting a parent leaves the session what it is, and every node that it has
/// shown. Of the cursors those that are still bound stay listed, and no other.
pub proof fn refreshing_keeps_the_session(
    before: Session,
    after: Session,
    parent: Option<Seq<char>>,
    i: int,
)
    requires
        invalidated(before, after, parent),
    ensures
        after.server == before.server,
        after.native_session_id == before.native_session_id,
        after.last_used == before.last_used,
        after.node_bindings@ == before.node_bindings@,
        0 <= i < after.page_binding_order@.len() ==> after.page_bindings@.contains_key(
            after.page_binding_order@[i]@,
        ),
        0 <= i < before.page_binding_order@.len() && after.page_bindings@.contains_key(
            before.page_binding_order@[i]@,
        ) ==> after.page_binding_order@.contains(before.page_binding_order@[i]),
{
    let bindings = crate::browse::session::bindings_of_others(before.page_bindings@, parent);
    let keep = crate::browse::session::still_bound(bindings);
    if 0 <= i < after.page_binding_order@.len() {
        before.page_binding_order@.lemma_filter_pred(keep, i);
    }
    if 0 <= i < before.page_binding_order@.len() && after.page_bindings@.contains_key(
        before.page_binding_order@[i]@,
    ) {
        before.page_binding_order@.lemma_filter_contains(keep, i);
    }
}

} // verus!

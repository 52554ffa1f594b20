use vstd::prelude::*;

use crate::bridge::CommandFamily;
use crate::error::CouchbaseError;
use crate::instance::{connect_outcome, fresh_connection, shutdown_view, submitted, Instance};

verus! {

/// How a store writes its document.
#[derive(Debug, Clone, Copy, PartialEq, Eq, Structural)]
pub enum StoreMode {
    /// Only where no document has the id.
    Insert,
    /// Whether or not one has it.
    Upsert,
    /// Only where one has it.
    Replace,
}

/// A command for the engine, as the façade builds it from a typed call.
#[derive(Debug, Clone)]
pub enum Command {
    Get(String),
    Store(StoreMode, String, String),
    Remove(String),
    Query(String),
    ViewQuery(String, String),
}

pub enum CommandView {
    Get(Seq<char>),
    Store(StoreMode, Seq<char>, Seq<char>),
    Remove(Seq<char>),
    Query(Seq<char>),
    ViewQuery(Seq<char>, Seq<char>),
}

impl View for Command {
    type V = CommandView;

    open spec fn view(&self) -> CommandView {
        match *self {
            Command::Get(id) => CommandView::Get(id@),
            Command::Store(m, id, content) => CommandView::Store(m, id@, content@),
            Command::Remove(id) => CommandView::Remove(id@),
            Command::Query(s) => CommandView::Query(s@),
            Command::ViewQuery(d, v) => CommandView::ViewQuery(d@, v@),
        }
    }
}

/// The family of engine calls, and so of callbacks, that a command goes through.
pub open spec fn family_of(c: CommandView) -> CommandFamily {
    match c {
        CommandView::Get(_) => CommandFamily::Get,
        CommandView::Store(..) => CommandFamily::Store,
        CommandView::Remove(_) => CommandFamily::Remove,
        CommandView::Query(_) => CommandFamily::StatementQuery,
        CommandView::ViewQuery(..) => CommandFamily::ViewQuery,
    }
}

impl Command {
    pub fn family(&self) -> (f: CommandFamily)
        ensures
            f == family_of(self@),
    {
        match self {
            Command::Get(_) => CommandFamily::Get,
            Command::Store(..) => CommandFamily::Store,
            Command::Remove(_) => CommandFamily::Remove,
            Command::Query(_) => CommandFamily::StatementQuery,
            Command::ViewQuery(..) => CommandFamily::ViewQuery,
        }
    }
}

/// The name of the collection that every bucket has.
pub open spec fn default_collection_name() -> Seq<char> {
    seq!['_', 'd', 'e', 'f', 'a', 'u', 'l', 't']
}

fn default_name() -> (s: String)
    ensures
        s@ == default_collection_name(),
{
    let s = "_default".to_owned();
    proof {
        reveal_strlit("_default");
        assert(s@ =~= default_collection_name());
    }
    s
}

/// Document operations on one collection: each call builds the command that the
/// bucket then submits.
#[derive(Debug, Clone)]
pub struct Collection {
    pub name: String,
}

/// The collection handle of a `SharedBucket`.
#[derive(Debug, Clone)]
pub struct SharedCollection {
    pub name: String,
}


fn copy_str(s: &str) -> (r: String)
    ensures
        r@ == s@,
{
    s.to_owned()
}

impl Collection {
    /// Fetches the document `id`.
    pub fn get(&self, id: &str) -> (c: Command)
        ensures
            c@ == CommandView::Get(id@),
    {
        Command::Get(copy_str(id))
    }

    /// Stores `content` under `id` where no document has that id yet.
    pub fn insert(&self, id: &str, content: &str) -> (c: Command)
        ensures
            c@ == CommandView::Store(StoreMode::Insert, id@, content@),
    {
        Command::Store(StoreMode::Insert, copy_str(id), copy_str(content))
    }

    /// Stores `content` under `id`, whether or not a document has that id.
    pub fn upsert(&self, id: &str, content: &str) -> (c: Command)
        ensures
            c@ == CommandView::Store(StoreMode::Upsert, id@, content@),
    {
        Command::Store(StoreMode::Upsert, copy_str(id), copy_str(content))
    }

    /// Stores `content` under `id` where a document has that id.
    pub fn replace(&self, id: &str, content: &str) -> (c: Command)
        ensures
            c@ == CommandView::Store(StoreMode::Replace, id@, content@),
    {
        Command::Store(StoreMode::Replace, copy_str(id), copy_str(content))
    }

    /// Removes the document `id`.
    pub fn remove(&self, id: &str) -> (c: Command)
        ensures
            c@ == CommandView::Remove(id@),
    {
        Command::Remove(copy_str(id))
    }
}

impl SharedCollection {
    /// Fetches the document `id`.
    pub fn get(&self, id: &str) -> (c: Command)
        ensures
            c@ == CommandView::Get(id@),
    {
        Command::Get(copy_str(id))
    }

    /// Stores `content` under `id` where no document has that id yet.
    pub fn insert(&self, id: &str, content: &str) -> (c: Command)
        ensures
            c@ == CommandView::Store(StoreMode::Insert, id@, content@),
    {
        Command::Store(StoreMode::Insert, copy_str(id), copy_str(content))
    }

    /// Stores `content` under `id`, whether or not a document has that id.
    pub fn upsert(&self, id: &str, content: &str) -> (c: Command)
        ensures
            c@ == CommandView::Store(StoreMode::Upsert, id@, content@),
    {
        Command::Store(StoreMode::Upsert, copy_str(id), copy_str(content))
    }

    /// Stores `content` under `id` where a document has that id.
    pub fn replace(&self, id: &str, content: &str) -> (c: Command)
        ensures
            c@ == CommandView::Store(StoreMode::Replace, id@, content@),
    {
        Command::Store(StoreMode::Replace, copy_str(id), copy_str(content))
    }

    /// Removes the document `id`.
    pub fn remove(&self, id: &str) -> (c: Command)
        ensures
            c@ == CommandView::Remove(id@),
    {
        Command::Remove(copy_str(id))
    }
}

/// Provides access to bucket level operations and collections, over one
/// connection that it owns.
pub struct Bucket {
    pub instance: Instance,
}

impl Bucket {
    /// Opens the bucket's connection from what the engine reported while
    /// bootstrapping it; see `Instance::connect`.
    pub fn new(cs: &str, user: &str, pw: &str, control_status: u16, bootstrap_status: u16) -> (r:
        Result<Self, CouchbaseError>)
        ensures
            connect_outcome(control_status, bootstrap_status) matches Err(e) ==> r == Err::<
                Bucket,
                CouchbaseError,
            >(e),
            connect_outcome(control_status, bootstrap_status) is Ok ==> (r matches Ok(b)
                && fresh_connection(b.instance@) && crate::instance::valid(b.instance@)
                && b.instance.params.connection_string@ == cs@
                && b.instance.params.user@ == user@ && b.instance.params.password@ == pw@),
    {
        match Instance::connect(cs, user, pw, control_status, bootstrap_status) {
            Ok(instance) => Ok(Bucket { instance }),
            Err(e) => Err(e),
        }
    }

    /// Opens the default collection.
    pub fn default_collection(&self) -> (c: Collection)
        ensures
            c.name@ == default_collection_name(),
    {
        Collection { name: default_name() }
    }

    /// Builds a statement query.
    pub fn query(&self, statement: &str) -> (c: Command)
        ensures
            c@ == CommandView::Query(statement@),
    {
        Command::Query(copy_str(statement))
    }

    /// Builds a query of the view `view` of design document `design`.
    pub fn view_query(&self, design: &str, view: &str) -> (c: Command)
        ensures
            c@ == CommandView::ViewQuery(design@, view@),
    {
        Command::ViewQuery(copy_str(design), copy_str(view))
    }

    /// Submits `cmd` on the bucket's connection; the result is the cookie that its
    /// deliveries carry. See `submitted`.
    pub fn submit(&mut self, cmd: &Command) -> (r: Result<usize, CouchbaseError>)
        requires
            old(self).instance@.bridge.slots.len() < usize::MAX,
        ensures
            submitted(old(self).instance@, final(self).instance@, family_of(cmd@), r),
    {
        self.instance.submit(cmd.family())
    }

    /// Begins closing the connection; see `Instance::shutdown`.
    pub fn close(&mut self) -> (r: Result<(), CouchbaseError>)
        ensures
            final(self).instance@ == shutdown_view(old(self).instance@),
            r is Ok <==> crate::instance::accepts_commands(old(self).instance@),
            r matches Err(e) ==> e == CouchbaseError::ShutdownError,
    {
        self.instance.shutdown()
    }
}

/// A bucket meant to be shared between threads: the owner holds it behind a lock,
/// which serialises all access to its connection.
pub struct SharedBucket {
    pub instance: Instance,
}

impl SharedBucket {
    /// Opens the bucket's connection from what the engine reported while
    /// bootstrapping it; see `Instance::connect`.
    pub fn new(cs: &str, user: &str, pw: &str, control_status: u16, bootstrap_status: u16) -> (r:
        Result<Self, CouchbaseError>)
        ensures
            connect_outcome(control_status, bootstrap_status) matches Err(e) ==> r == Err::<
                SharedBucket,
                CouchbaseError,
            >(e),
            connect_outcome(control_status, bootstrap_status) is Ok ==> (r matches Ok(b)
                && fresh_connection(b.instance@) && crate::instance::valid(b.instance@)
                && b.instance.params.connection_string@ == cs@
                && b.instance.params.user@ == user@ && b.instance.params.password@ == pw@),
    {
        match Instance::connect(cs, user, pw, control_status, bootstrap_status) {
            Ok(instance) => Ok(SharedBucket { instance }),
            Err(e) => Err(e),
        }
    }

    /// Opens the default collection.
    pub fn default_collection(&self) -> (c: SharedCollection)
        ensures
            c.name@ == default_collection_name(),
    {
        SharedCollection { name: default_name() }
    }

    /// Builds a statement query.
    pub fn query(&self, statement: &str) -> (c: Command)
        ensures
            c@ == CommandView::Query(statement@),
    {
        Command::Query(copy_str(statement))
    }

    /// Builds a query of the view `view` of design document `design`.
    pub fn view_query(&self, design: &str, view: &str) -> (c: Command)
        ensures
            c@ == CommandView::ViewQuery(design@, view@),
    {
        Command::ViewQuery(copy_str(design), copy_str(view))
    }

    /// Submits `cmd` on the bucket's connection; the result is the cookie that its
    /// deliveries carry. See `submitted`.
    pub fn submit(&mut self, cmd: &Command) -> (r: Result<usize, CouchbaseError>)
        requires
            old(self).instance@.bridge.slots.len() < usize::MAX,
        ensures
            submitted(old(self).instance@, final(self).instance@, family_of(cmd@), r),
    {
        self.instance.submit(cmd.family())
    }

    /// Begins closing the connection; see `Instance::shutdown`.
    pub fn close(&mut self) -> (r: Result<(), CouchbaseError>)
        ensures
            final(self).instance@ == shutdown_view(old(self).instance@),
            r is Ok <==> crate::instance::accepts_commands(old(self).instance@),
            r matches Err(e) ==> e == CouchbaseError::ShutdownError,
    {
        self.instance.shutdown()
    }
}

} // verus!

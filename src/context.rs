//! The daemon's process-wide state: the settings an initialize call resolves,
//! and the cell that holds the one live indexing context.
use crate::job::DEFAULT_CONCURRENCY;
use crate::provider::{OllamaClient, ProviderError};
use crate::store::{StoreError, VectorStore};
use vstd::prelude::*;

verus! {

pub const DEFAULT_PROVIDER_URL: &'static str = "http://localhost:11434";

pub const DEFAULT_MODEL: &'static str = "nomic-embed-text";

/// The number of results a search returns when the caller names no limit.
pub const DEFAULT_SEARCH_LIMIT: u32 = 10;

/// Why a call to the daemon failed.
pub enum DaemonError {
    /// Setting up the storage directory, the store or the client failed.
    Initialization { message: String },
    /// A call that needs the context came before the first initialize.
    NotInitialized,
    Provider(ProviderError),
    Store(StoreError),
}

/// `base` and `part` joined by one `/`.
pub open spec fn join_path(base: Seq<char>, part: Seq<char>) -> Seq<char> {
    if base.len() == 0 {
        part
    } else if base.last() == '/' {
        base + part
    } else {
        base + "/"@ + part
    }
}

/// The storage path used when the caller names none.
pub open spec fn default_db_path(workspace: Seq<char>) -> Seq<char> {
    join_path(join_path(workspace, ".void"@), "index.lance"@)
}

/// Joins `part` onto the path `base`.
pub fn join(base: &str, part: &str) -> (r: String)
    ensures
        r@ == join_path(base@, part@),
{
    let n = base.unicode_len();
    let mut r = String::from_str(base);
    if n > 0 && base.get_char(n - 1) != '/' {
        r.append("/");
        proof {
            reveal_strlit("/");
        }
    }
    r.append(part);
    r
}

/// What an initialize call asks for.
pub struct InitializeParams {
    pub workspace_path: String,
    pub ollama_url: Option<String>,
    pub ollama_model: Option<String>,
    pub db_path: Option<String>,
}

/// What an initialize call sets up, with each default filled in.
pub struct Settings {
    pub workspace_path: String,
    pub ollama_url: String,
    pub ollama_model: String,
    pub db_path: String,
    pub concurrency: usize,
}

pub open spec fn or_default(v: Option<String>, d: Seq<char>) -> Seq<char> {
    match v {
        Some(s) => s@,
        None => d,
    }
}

fn string_or(v: &Option<String>, d: &str) -> (r: String)
    ensures
        r@ == or_default(*v, d@),
{
    match v {
        Some(s) => s.clone(),
        None => String::from_str(d),
    }
}

impl InitializeParams {
    /// Fills in the provider address, the model, the storage path under the
    /// workspace, and the task cap where the caller left them out.
    pub fn resolve(&self) -> (r: Settings)
        ensures
            r.workspace_path@ == self.workspace_path@,
            r.ollama_url@ == or_default(self.ollama_url, DEFAULT_PROVIDER_URL@),
            r.ollama_model@ == or_default(self.ollama_model, DEFAULT_MODEL@),
            r.db_path@ == or_default(self.db_path, default_db_path(self.workspace_path@)),
            r.concurrency == DEFAULT_CONCURRENCY,
    {
        let db_path = match &self.db_path {
            Some(p) => p.clone(),
            None => {
                let dir = join(self.workspace_path.as_str(), ".void");
                proof {
                    reveal_strlit(".void");
                    reveal_strlit("index.lance");
                }
                join(dir.as_str(), "index.lance")
            },
        };
        Settings {
            workspace_path: self.workspace_path.clone(),
            ollama_url: string_or(&self.ollama_url, DEFAULT_PROVIDER_URL),
            ollama_model: string_or(&self.ollama_model, DEFAULT_MODEL),
            db_path,
            concurrency: DEFAULT_CONCURRENCY,
        }
    }
}

/// The limit of a search: the caller's, or ten.
pub fn search_limit(limit: Option<u32>) -> (r: usize)
    ensures
        r == match limit {
            Some(n) => n,
            None => DEFAULT_SEARCH_LIMIT,
        },
{
    match limit {
        Some(n) => n as usize,
        None => DEFAULT_SEARCH_LIMIT as usize,
    }
}

/// The live state of an initialized daemon.
pub struct IndexingContext {
    pub settings: Settings,
    pub store: VectorStore,
    pub client: OllamaClient,
}

/// The cell that holds the indexing context, empty until the first
/// initialize call and replaced whole by each later one.
pub struct ContextCell {
    current: Option<IndexingContext>,
}

/// Whether `after` is the cell `before` once `ctx` has been installed.
pub open spec fn installs(before: ContextCell, ctx: IndexingContext, after: ContextCell) -> bool {
    after.current_view() == Some(ctx)
}

impl ContextCell {
    pub closed spec fn current_view(&self) -> Option<IndexingContext> {
        self.current
    }

    /// An empty cell.
    pub fn new() -> (r: ContextCell)
        ensures
            r.current_view() is None,
    {
        ContextCell { current: None }
    }

    /// Puts `ctx` in place of whatever the cell held and answers the status
    /// `initialized`.
    pub fn install(&mut self, ctx: IndexingContext) -> (r: String)
        ensures
            installs(*old(self), ctx, *final(self)),
            r@ == "initialized"@,
    {
        self.current = Some(ctx);
        proof {
            reveal_strlit("initialized");
        }
        String::from_str("initialized")
    }

    pub fn is_initialized(&self) -> (r: bool)
        ensures
            r == self.current_view() is Some,
    {
        self.current.is_some()
    }

    /// The live context, or `NotInitialized`.
    pub fn get(&self) -> (r: Result<&IndexingContext, DaemonError>)
        ensures
            match self.current_view() {
                Some(c) => r == Ok::<&IndexingContext, DaemonError>(&c),
                None => r matches Err(e) && e is NotInitialized,
            },
    {
        match &self.current {
            Some(c) => Ok(c),
            None => Err(DaemonError::NotInitialized),
        }
    }

    /// The live context, to be changed in place, or `NotInitialized`.
    pub fn get_mut(&mut self) -> (r: Result<&mut IndexingContext, DaemonError>)
        ensures
            old(self).current_view() is Some <==> r is Ok,
            r matches Err(e) ==> e is NotInitialized && *final(self) == *old(self),
            r matches Ok(c) ==> *c == old(self).current_view()->Some_0
                && final(self).current_view() == Some(*final(c)),
    {
        match &mut self.current {
            Some(c) => Ok(c),
            None => Err(DaemonError::NotInitialized),
        }
    }
}

/// Initializing twice leaves the cell holding the second context alone: the
/// first one can no longer be reached through it.
pub proof fn lemma_reinit_supersedes(
    c0: ContextCell,
    c1: ContextCell,
    c2: ContextCell,
    first: IndexingContext,
    second: IndexingContext,
)
    requires
        installs(c0, first, c1),
        installs(c1, second, c2),
    ensures
        c2.current_view() == Some(second),
{
}

} // verus!

//! The connection context: initialize once, read many.
//!
//! Instead of hidden process-wide mutable state, the store client handle
//! and the default database name live in an explicit context object,
//! owned by a single initializer and read by every operation afterwards.
//! Each slot is set once: a second initialization attempt fails and
//! leaves the context untouched, and a read before initialization fails
//! with a missing-client error rather than silently doing nothing.

use vstd::prelude::*;
use crate::errors::OximodError;


verus! {

/// An opaque token standing for a connected store client. The driver
/// side keeps the actual connection and knows it by this tag.
#[derive(Clone, Copy, PartialEq, Eq, Structural, Debug)]
pub struct ClientHandle {
    pub tag: u64,
}

/// The process-wide connection state: the client slot and the default
/// database name, each set at most once.
#[derive(Clone, Debug)]
pub struct ConnectionContext {
    /// The registered client, once initialized.
    pub client: Option<ClientHandle>,
    /// The default database name, once declared.
    pub default_db: Option<String>,
}

impl ConnectionContext {
    /// A context with nothing initialized.
    pub fn new() -> (r: ConnectionContext)
        ensures
            r.client is None,
            r.default_db is None,
    {
        ConnectionContext { client: None, default_db: None }
    }
}

/// Registers the store client, once.
///
/// Succeeds exactly when no client is registered yet; a second attempt
/// fails with an initialization-conflict error and changes nothing.
pub fn set_global_client(ctx: &mut ConnectionContext, client: ClientHandle) -> (r: Result<
    (),
    OximodError,
>)
    ensures
        old(ctx).client is None ==> (r is Ok && final(ctx).client == Some(client) && final(ctx).default_db == old(ctx).default_db),
        old(ctx).client is Some ==> (r matches Err(e) && e is GlobalClientInitError && *final(ctx)
            == *old(ctx)),
{
    if ctx.client.is_some() {
        return Err(
            OximodError::GlobalClientInitError(String::from_str("CLIENT set method failed.")),
        );
    }
    ctx.client = Some(client);
    Ok(())
}

/// Reads the registered store client.
///
/// Succeeds exactly when a client was registered; before that it fails
/// with a missing-client error, never a silent no-op.
pub fn get_global_client(ctx: &ConnectionContext) -> (r: Result<ClientHandle, OximodError>)
    ensures
        ctx.client matches Some(c) ==> r == Ok::<ClientHandle, OximodError>(c),
        ctx.client is None ==> (r matches Err(e) && e is GlobalClientMissing),
{
    match &ctx.client {
        Some(c) => Ok(*c),
        None => Err(
            OximodError::GlobalClientMissing(String::from_str("CLIENT not found.")),
        ),
    }
}

/// Declares the default database name, once.
///
/// Succeeds exactly when no name is declared yet; a second attempt fails
/// with an initialization-conflict error and changes nothing.
pub fn set_default_db(ctx: &mut ConnectionContext, default_db: String) -> (r: Result<
    (),
    OximodError,
>)
    ensures
        old(ctx).default_db is None ==> (r is Ok && final(ctx).default_db == Some(default_db)
            && final(ctx).client == old(ctx).client),
        old(ctx).default_db is Some ==> (r matches Err(e) && e is GlobalClientInitError && *final(ctx) == *old(ctx)),
{
    if ctx.default_db.is_some() {
        return Err(
            OximodError::GlobalClientInitError(
                String::from_str("DEFAULT_DB set method failed."),
            ),
        );
    }
    ctx.default_db = Some(default_db);
    Ok(())
}

/// Reads the declared default database name.
///
/// Succeeds exactly when a name was declared; before that it fails with
/// a missing-value error.
pub fn get_default_db(ctx: &ConnectionContext) -> (r: Result<String, OximodError>)
    ensures
        ctx.default_db matches Some(n) ==> (r matches Ok(m) && m@ == n@),
        ctx.default_db is None ==> (r matches Err(e) && e is GlobalClientMissing),
{
    match &ctx.default_db {
        Some(n) => Ok(n.clone()),
        None => Err(
            OximodError::GlobalClientMissing(String::from_str("DEFAULT_DB not found.")),
        ),
    }
}

} // verus!

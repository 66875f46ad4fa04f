//! The decisions of a client of one Neovim instance: its connection state, and how
//! the answers of Neovim become results or errors.
//!
//! The session itself (the msgpack-rpc channel and its I/O task) is driven by the
//! caller, which reports what happened through the arguments of these functions.
use vstd::prelude::*;

use crate::documents::{
    lua_answer_result, BufferInfo, NavigateResult, NvimExecuteLuaResult, TextDocumentIdentifier,
};
use crate::error::{neovim_error_text, NeovimError};
use crate::logging::opt_view;
use crate::text::{chars_vec, concat2, concat3, trim_bounds, trim_spec};
use crate::documents::NeovimClientConfig;

verus! {

/// The message of every operation that needs a connection and finds none.
pub open spec fn not_connected_text() -> Seq<char> {
    "Not connected to any Neovim instance"@
}

/// The connection target after a connection attempt to `target` that `succeeded`
/// (or not), starting from `state`.
pub open spec fn after_connect(state: Option<Seq<char>>, target: Seq<char>, succeeded: bool) -> Option<
    Seq<char>,
> {
    if state is Some {
        state
    } else if succeeded {
        Some(target)
    } else {
        None
    }
}

/// The error that refuses a second connection.
pub open spec fn already_connected_text(target: Seq<char>) -> Seq<char> {
    "Already connected to "@ + target + ". Disconnect first."@
}

/// Client of one Neovim instance: whether it is connected, and to what.
pub struct NeovimClient {
    connection: Option<String>,
    config: NeovimClientConfig,
}

impl NeovimClient {
    /// The target of the current connection, if any.
    pub closed spec fn connected_to(&self) -> Option<Seq<char>> {
        opt_view(self.connection)
    }

    /// A client that is not connected.
    pub fn new() -> (res: Self)
        ensures
            res.connected_to() is None,
    {
        NeovimClient { connection: None, config: NeovimClientConfig {  } }
    }

    /// The client with `config` in place of its configuration.
    pub fn with_config(self, config: NeovimClientConfig) -> (res: Self)
        ensures
            res.connected_to() == self.connected_to(),
            res.config() == config,
    {
        NeovimClient { connection: self.connection, config }
    }

    /// The configuration.
    pub closed spec fn config(&self) -> NeovimClientConfig {
        self.config
    }

    /// The target of the current connection.
    pub fn target(&self) -> (res: Option<String>)
        ensures
            opt_view(res) == self.connected_to(),
    {
        match &self.connection {
            Some(t) => Some(t.clone()),
            None => None,
        }
    }

    /// Whether the connection is alive: it exists and its I/O task has not finished.
    pub fn is_alive(&self, io_finished: bool) -> (res: bool)
        ensures
            res == (self.connected_to() is Some && !io_finished),
    {
        self.connection.is_some() && !io_finished
    }

    /// Refuses a connection attempt while a connection exists.
    pub fn check_can_connect(&self) -> (res: Result<(), NeovimError>)
        ensures
            match self.connected_to() {
                None => res is Ok,
                Some(t) => res matches Err(NeovimError::Connection(msg)) && msg@
                    == already_connected_text(t),
            },
    {
        match &self.connection {
            None => Ok(()),
            Some(t) => Err(
                NeovimError::Connection(concat3("Already connected to ", t.as_str(), ". Disconnect first.")),
            ),
        }
    }

    /// Records the outcome of an attempt to connect to `target`.  A client that is
    /// already connected refuses and stays as it is.
    pub fn complete_connect(&mut self, target: String, outcome: Result<(), String>) -> (res: Result<
        (),
        NeovimError,
    >)
        ensures
            final(self).connected_to() == after_connect(
                old(self).connected_to(),
                target@,
                outcome is Ok,
            ),
            final(self).config() == old(self).config(),
            match old(self).connected_to() {
                Some(t) => res matches Err(NeovimError::Connection(msg)) && msg@
                    == already_connected_text(t),
                None => match outcome {
                    Ok(_) => res is Ok,
                    Err(reason) => res matches Err(NeovimError::Connection(msg)) && msg@
                        == "Connection failed: "@ + reason@,
                },
            },
    {
        let check = self.check_can_connect();
        if check.is_err() {
            return check;
        }
        match outcome {
            Ok(()) => {
                self.connection = Some(target);
                Ok(())
            },
            Err(reason) => Err(
                NeovimError::Connection(concat2("Connection failed: ", reason.as_str())),
            ),
        }
    }

    /// Ends the connection, handing back its target.
    pub fn disconnect(&mut self) -> (res: Result<String, NeovimError>)
        ensures
            final(self).connected_to() is None,
            final(self).config() == old(self).config(),
            match old(self).connected_to() {
                Some(t) => res matches Ok(s) && s@ == t,
                None => res matches Err(NeovimError::Connection(msg)) && msg@
                    == not_connected_text(),
            },
    {
        match self.connection.take() {
            Some(t) => Ok(t),
            None => Err(NeovimError::Connection("Not connected to any Neovim instance".to_owned())),
        }
    }

    /// Refuses an operation that needs a connection when there is none.
    pub fn require_connection(&self) -> (res: Result<(), NeovimError>)
        ensures
            match self.connected_to() {
                Some(_) => res is Ok,
                None => res matches Err(NeovimError::Connection(msg)) && msg@
                    == not_connected_text(),
            },
    {
        match &self.connection {
            Some(_) => Ok(()),
            None => Err(NeovimError::Connection("Not connected to any Neovim instance".to_owned())),
        }
    }

    /// Refuses Lua code that is blank, then code sent while not connected.
    pub fn check_lua_code(&self, code: &str) -> (res: Result<(), NeovimError>)
        ensures
            trim_spec(code@).len() == 0 ==> (res matches Err(NeovimError::Api(msg)) && msg@
                == "Lua code cannot be empty"@),
            trim_spec(code@).len() > 0 && self.connected_to() is None ==> (res matches Err(
                NeovimError::Connection(msg),
            ) && msg@ == not_connected_text()),
            trim_spec(code@).len() > 0 && self.connected_to() is Some ==> res is Ok,
    {
        let chars = chars_vec(code);
        let (start, end) = trim_bounds(&chars);
        if start == end {
            return Err(NeovimError::Api("Lua code cannot be empty".to_owned()));
        }
        self.require_connection()
    }
}

impl Default for NeovimClient {
    fn default() -> (res: Self)
        ensures
            res.connected_to() is None,
    {
        NeovimClient::new()
    }
}

/// The result of running Lua code: a failure becomes an API error.
pub fn lua_execution_outcome<V>(result: Result<V, String>) -> (res: Result<V, NeovimError>)
    ensures
        match result {
            Ok(v) => res == Ok::<V, NeovimError>(v),
            Err(reason) => res matches Err(NeovimError::Api(msg)) && msg@ == "Lua execution failed: "@
                + reason@,
        },
{
    match result {
        Ok(v) => Ok(v),
        Err(reason) => Err(NeovimError::Api(concat2("Lua execution failed: ", reason.as_str()))),
    }
}

/// The buffer list, from the outcome of the Lua listing and of decoding its JSON text.
pub fn buffers_outcome(result: Result<Result<Vec<BufferInfo>, String>, NeovimError>) -> (res: Result<
    Vec<BufferInfo>,
    NeovimError,
>)
    ensures
        match result {
            Err(e) => res matches Err(NeovimError::Api(msg)) && msg@ == "Failed to get buffer info: "@
                + neovim_error_text(e),
            Ok(Err(reason)) => res matches Err(NeovimError::Api(msg)) && msg@
                == "Failed to parse buffers: "@ + reason@,
            Ok(Ok(buffers)) => res == Ok::<Vec<BufferInfo>, NeovimError>(buffers),
        },
{
    match result {
        Err(e) => {
            let text = e.to_display_string();
            Err(NeovimError::Api(concat2("Failed to get buffer info: ", text.as_str())))
        },
        Ok(Err(reason)) => Err(NeovimError::Api(concat2("Failed to parse buffers: ", reason.as_str()))),
        Ok(Ok(buffers)) => Ok(buffers),
    }
}

/// The project root, from the outcome of asking Neovim for its working directory
/// (`Ok(None)` when the answer was not a string).
pub fn project_root_outcome(result: Result<Option<String>, String>) -> (res: Result<String, NeovimError>)
    ensures
        match result {
            Ok(Some(dir)) => res == Ok::<String, NeovimError>(dir),
            Ok(None) => res matches Err(NeovimError::Api(msg)) && msg@
                == "Invalid working directory format"@,
            Err(reason) => res matches Err(NeovimError::Api(msg)) && msg@
                == "Failed to get working directory: "@ + reason@,
        },
{
    match result {
        Ok(Some(dir)) => Ok(dir),
        Ok(None) => Err(NeovimError::Api("Invalid working directory format".to_owned())),
        Err(reason) => Err(
            NeovimError::Api(concat2("Failed to get working directory: ", reason.as_str())),
        ),
    }
}

/// The identifier of a buffer's document, from the outcome of asking Neovim for the
/// buffer's URI (`Ok(None)` when the answer was not a string).
pub fn buffer_uri_outcome(result: Result<Option<String>, String>) -> (res: Result<
    TextDocumentIdentifier,
    NeovimError,
>)
    ensures
        match result {
            Ok(Some(uri)) => res matches Ok(id) && id.uri == uri && id.version is None,
            Ok(None) => res matches Err(NeovimError::Api(msg)) && msg@ == "Invalid buffer URI format"@,
            Err(reason) => res matches Err(NeovimError::Api(msg)) && msg@
                == "Failed to get buffer URI: "@ + reason@,
        },
{
    match result {
        Ok(Some(uri)) => Ok(TextDocumentIdentifier { uri, version: None }),
        Ok(None) => Err(NeovimError::Api("Invalid buffer URI format".to_owned())),
        Err(reason) => Err(NeovimError::Api(concat2("Failed to get buffer URI: ", reason.as_str()))),
    }
}

/// The result of a navigation, from the outcome of the Lua call and of decoding its
/// JSON answer.
pub fn navigate_outcome(
    result: Result<Result<NvimExecuteLuaResult<NavigateResult>, String>, String>,
) -> (res: Result<NavigateResult, NeovimError>)
    ensures
        match result {
            Err(reason) => res matches Err(NeovimError::Api(msg)) && msg@ == "Failed to navigate: "@
                + reason@,
            Ok(Err(reason)) => res matches Err(NeovimError::Api(msg)) && msg@
                == "Failed to parse navigate result: "@ + reason@,
            Ok(Ok(answer)) => res == lua_answer_result(answer),
        },
{
    match result {
        Err(reason) => Err(NeovimError::Api(concat2("Failed to navigate: ", reason.as_str()))),
        Ok(Err(reason)) => Err(
            NeovimError::Api(concat2("Failed to parse navigate result: ", reason.as_str())),
        ),
        Ok(Ok(answer)) => answer.into_result(),
    }
}

/// The content of a document read, from the outcome of the Lua call and of decoding
/// its JSON answer.
pub fn read_document_outcome(result: Result<Result<NvimExecuteLuaResult<String>, String>, String>) -> (res:
    Result<String, NeovimError>)
    ensures
        match result {
            Err(reason) => res matches Err(NeovimError::Api(msg)) && msg@
                == "Failed to get read document: "@ + reason@,
            Ok(Err(reason)) => res matches Err(NeovimError::Api(msg)) && msg@
                == "Failed to parse read document result: "@ + reason@,
            Ok(Ok(answer)) => res == lua_answer_result(answer),
        },
{
    match result {
        Err(reason) => Err(NeovimError::Api(concat2("Failed to get read document: ", reason.as_str()))),
        Ok(Err(reason)) => Err(
            NeovimError::Api(concat2("Failed to parse read document result: ", reason.as_str())),
        ),
        Ok(Ok(answer)) => answer.into_result(),
    }
}

/// The answer to a request that Neovim sends to this client.
#[derive(Debug, Clone, Copy, PartialEq, Eq)]
pub enum HandlerReply {
    /// The string `pong`.
    Pong,
    /// Nil.
    Nil,
}

/// `ping` is answered with `pong`, every other request with nil.
pub fn handle_request_reply(name: &str) -> (res: HandlerReply)
    ensures
        res == (if name@ == "ping"@ {
            HandlerReply::Pong
        } else {
            HandlerReply::Nil
        }),
{
    if crate::text::str_eq(name, "ping") {
        HandlerReply::Pong
    } else {
        HandlerReply::Nil
    }
}

/// Connection lifecycle: connecting a client that is not connected makes it connected
/// to that target, a connected client refuses another connection and stays as it is,
/// a failed attempt leaves it unconnected, and after a disconnect a new connection
/// succeeds again.
pub proof fn law_connection_lifecycle(state: Option<Seq<char>>, target: Seq<char>, other: Seq<char>)
    ensures
        after_connect(None, target, true) == Some(target),
        after_connect(None, target, false) is None,
        state is Some ==> after_connect(state, other, true) == state,
        after_connect(after_connect(None, target, true), other, true) == Some(target),
{
}

} // verus!

//! The control-surface boundary: the request and response records carried
//! over the line-delimited socket, and the dispatch of a request into an
//! engine command. The socket itself and the JSON encoding live in the host
//! shell; the recognized commands and their argument rules live here.

use vstd::prelude::*;
use crate::geometry::Rect;
use crate::model::WindowId;
use crate::text::{all_digits, digits_val, parse_coord, parse_u32, spec_parse_coord};
use crate::window_manager::Command;

verus! {

/// One request from a control client.
#[derive(Debug, Clone)]
pub struct IpcMessage {
    pub command: String,
    pub args: Vec<String>,
}

/// One reply to a control client; `data` carries an optional JSON payload
/// the host shell has already rendered.
#[derive(Debug, Clone)]
pub struct IpcResponse {
    pub success: bool,
    pub message: String,
    pub data: Option<String>,
}

/// What a request asks for: an engine command, or one of the two requests
/// the surface answers by itself.
#[derive(Debug, Clone, Copy, PartialEq, Eq, Structural)]
pub enum IpcRequest {
    Dispatch(Command),
    Ping,
    Help,
}

/// A decimal window identifier.
pub open spec fn spec_window_id_arg(s: Seq<char>) -> Option<WindowId> {
    if s.len() > 0 && all_digits(s) && digits_val(s) <= u32::MAX {
        Some(WindowId(digits_val(s) as u32))
    } else {
        None
    }
}

/// What each recognized command requires of its arguments, and the engine
/// command it dispatches to.
pub open spec fn spec_parse_request(command: Seq<char>, args: Seq<Seq<char>>) -> Option<
    IpcRequest,
> {
    if command == "focus"@ {
        if args.len() >= 1 {
            match spec_window_id_arg(args[0]) {
                Some(id) => Some(IpcRequest::Dispatch(Command::FocusWindow(id))),
                None => None,
            }
        } else {
            None
        }
    } else if command == "close"@ {
        if args.len() >= 1 {
            match spec_window_id_arg(args[0]) {
                Some(id) => Some(IpcRequest::Dispatch(Command::CloseWindow(id))),
                None => None,
            }
        } else {
            None
        }
    } else if command == "move"@ {
        spec_parse_move(args)
    } else if command == "toggle-layout"@ {
        Some(IpcRequest::Dispatch(Command::ToggleLayout))
    } else if command == "reload"@ {
        Some(IpcRequest::Dispatch(Command::ReloadConfig))
    } else if command == "list"@ {
        Some(IpcRequest::Dispatch(Command::ListWindows))
    } else if command == "status"@ {
        Some(IpcRequest::Dispatch(Command::GetStatus))
    } else if command == "quit"@ || command == "stop"@ {
        Some(IpcRequest::Dispatch(Command::Quit))
    } else if command == "ping"@ {
        Some(IpcRequest::Ping)
    } else if command == "help"@ {
        Some(IpcRequest::Help)
    } else {
        None
    }
}

/// The move request a five-argument list denotes: a window identifier and
/// four coordinates forming a rectangle inside the coordinate box; anything
/// else is malformed.
pub open spec fn spec_parse_move(args: Seq<Seq<char>>) -> Option<IpcRequest> {
    if args.len() >= 5 {
        match (
            spec_window_id_arg(args[0]),
            spec_parse_coord(args[1]),
            spec_parse_coord(args[2]),
            spec_parse_coord(args[3]),
            spec_parse_coord(args[4]),
        ) {
            (Some(id), Some(x), Some(y), Some(w), Some(h)) => {
                let rect = Rect { x, y, width: w, height: h };
                if rect.wf() {
                    Some(IpcRequest::Dispatch(Command::MoveWindow(id, rect)))
                } else {
                    None
                }
            },
            _ => None,
        }
    } else {
        None
    }
}

/// Dispatch one request into an engine command, an internally answered
/// request, or an error message: the result is the recognized request
/// exactly when the command and its arguments are well formed, and an error
/// message exactly otherwise.
pub fn parse_request(msg: &IpcMessage) -> (r: Result<IpcRequest, String>)
    ensures
        ({
            let command = msg.command@;
            let args = msg.args@.map_values(|a: String| a@);
            match r {
                Ok(req) => Some(req) == spec_parse_request(command, args),
                Err(_) => spec_parse_request(command, args) is None,
            }
        }),
{
    proof {
        reveal_strlit("focus");
        reveal_strlit("close");
        reveal_strlit("move");
        reveal_strlit("toggle-layout");
        reveal_strlit("reload");
        reveal_strlit("list");
        reveal_strlit("status");
        reveal_strlit("quit");
        reveal_strlit("stop");
        reveal_strlit("ping");
        reveal_strlit("help");
        assert("move"@ != "focus"@) by {
            assert("move"@.len() == 4 && "focus"@.len() == 5);
        }
        assert("move"@ != "close"@) by {
            assert("move"@.len() == 4 && "close"@.len() == 5);
        }
        assert("move"@ != "toggle-layout"@) by {
            assert("move"@.len() == 4 && "toggle-layout"@.len() == 13);
        }
        assert("move"@ != "reload"@) by {
            assert("move"@.len() == 4 && "reload"@.len() == 6);
        }
        assert("move"@ != "status"@) by {
            assert("move"@.len() == 4 && "status"@.len() == 6);
        }
        assert("move"@ != "list"@) by {
            assert("move"@[0] == 'm' && "list"@[0] == 'l');
        }
        assert("move"@ != "quit"@) by {
            assert("move"@[0] == 'm' && "quit"@[0] == 'q');
        }
        assert("move"@ != "stop"@) by {
            assert("move"@[0] == 'm' && "stop"@[0] == 's');
        }
        assert("move"@ != "ping"@) by {
            assert("move"@[0] == 'm' && "ping"@[0] == 'p');
        }
        assert("move"@ != "help"@) by {
            assert("move"@[0] == 'm' && "help"@[0] == 'h');
        }
    }
    let cmd = msg.command.as_str();
    if crate::text::str_eq(cmd, "focus") {
        if msg.args.len() >= 1 {
            proof {
                assert(msg.args@.map_values(|a: String| a@)[0] == msg.args@[0]@);
            }
            match parse_u32(msg.args[0].as_str()) {
                Some(id) => Ok(IpcRequest::Dispatch(Command::FocusWindow(WindowId(id)))),
                None => Err("Invalid window ID".to_string()),
            }
        } else {
            Err("focus command requires window ID argument".to_string())
        }
    } else if crate::text::str_eq(cmd, "close") {
        if msg.args.len() >= 1 {
            proof {
                assert(msg.args@.map_values(|a: String| a@)[0] == msg.args@[0]@);
            }
            match parse_u32(msg.args[0].as_str()) {
                Some(id) => Ok(IpcRequest::Dispatch(Command::CloseWindow(WindowId(id)))),
                None => Err("Invalid window ID".to_string()),
            }
        } else {
            Err("close command requires window ID argument".to_string())
        }
    } else if crate::text::str_eq(cmd, "move") {
        if msg.args.len() >= 5 {
            proof {
                assert(msg.args@.map_values(|a: String| a@)[0] == msg.args@[0]@);
                assert(msg.args@.map_values(|a: String| a@)[1] == msg.args@[1]@);
                assert(msg.args@.map_values(|a: String| a@)[2] == msg.args@[2]@);
                assert(msg.args@.map_values(|a: String| a@)[3] == msg.args@[3]@);
                assert(msg.args@.map_values(|a: String| a@)[4] == msg.args@[4]@);
            }
            let id = match parse_u32(msg.args[0].as_str()) {
                Some(v) => v,
                None => {
                    return Err("move command requires: window_id x y width height".to_string());
                },
            };
            let x = match parse_coord(msg.args[1].as_str()) {
                Some(v) => v,
                None => {
                    return Err("move command requires: window_id x y width height".to_string());
                },
            };
            let y = match parse_coord(msg.args[2].as_str()) {
                Some(v) => v,
                None => {
                    return Err("move command requires: window_id x y width height".to_string());
                },
            };
            let w = match parse_coord(msg.args[3].as_str()) {
                Some(v) => v,
                None => {
                    return Err("move command requires: window_id x y width height".to_string());
                },
            };
            let h = match parse_coord(msg.args[4].as_str()) {
                Some(v) => v,
                None => {
                    return Err("move command requires: window_id x y width height".to_string());
                },
            };
            let rect = Rect { x, y, width: w, height: h };
            if rect.is_wf() {
                Ok(IpcRequest::Dispatch(Command::MoveWindow(WindowId(id), rect)))
            } else {
                Err("move command requires: window_id x y width height".to_string())
            }
        } else {
            Err("move command requires: window_id x y width height".to_string())
        }
    } else if crate::text::str_eq(cmd, "toggle-layout") {
        Ok(IpcRequest::Dispatch(Command::ToggleLayout))
    } else if crate::text::str_eq(cmd, "reload") {
        Ok(IpcRequest::Dispatch(Command::ReloadConfig))
    } else if crate::text::str_eq(cmd, "list") {
        Ok(IpcRequest::Dispatch(Command::ListWindows))
    } else if crate::text::str_eq(cmd, "status") {
        Ok(IpcRequest::Dispatch(Command::GetStatus))
    } else if crate::text::str_eq(cmd, "quit") || crate::text::str_eq(cmd, "stop") {
        Ok(IpcRequest::Dispatch(Command::Quit))
    } else if crate::text::str_eq(cmd, "ping") {
        Ok(IpcRequest::Ping)
    } else if crate::text::str_eq(cmd, "help") {
        Ok(IpcRequest::Help)
    } else {
        let head: &str = "Unknown command: '";
        let tail: &str = "'. Use 'help' to see available commands.";
        let m = head.to_string().concat(msg.command.as_str()).concat(tail);
        Err(m)
    }
}

/// The handle a control client keeps: where the daemon's socket lives. The
/// connection itself is the host shell's business.
pub struct IpcClient {
    pub socket_path: String,
}

impl IpcClient {
    pub fn new(socket_path: String) -> (c: IpcClient)
        ensures
            c.socket_path@ == socket_path@,
    {
        IpcClient { socket_path }
    }

    pub fn socket_path(&self) -> (r: &String)
        ensures
            r@ == self.socket_path@,
    {
        &self.socket_path
    }
}

} // verus!

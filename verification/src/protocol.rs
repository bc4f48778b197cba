//! The handshake between the main thread and the Lua thread.
//!
//! The main thread makes a call on the Lua thread (load, an input event, a
//! physics tick, a frame, exit) and then serves the Lua thread's commands
//! until the reply to that call comes back. The Lua thread runs the game's
//! callback for the call, if the game defines it, and replies.
use vstd::prelude::*;

verus! {

/// The replies the Lua thread sends back to the main thread.
#[derive(PartialEq, Eq, Structural, Clone, Copy, Debug)]
pub enum LoraToMainCall {
    Load,
    Keypressed,
    Keyreleased,
    Mousepressed,
    Mousereleased,
    MouseMoved,
    MouseScrolled,
    Collision,
    Update,
    Draw,
    Render,
    GetWindowSize,
    Exit,
}

/// The calls the main thread makes on the Lua thread, without what they carry.
#[derive(PartialEq, Eq, Structural, Clone, Copy, Debug)]
pub enum MainToLoraCallKind {
    Load,
    Keypressed,
    Keyreleased,
    Mousepressed,
    Mousereleased,
    MouseMoved,
    MouseScrolled,
    Collision,
    Update,
    Render,
    Exit,
}

/// The reply to a call: the one of the same name.
pub open spec fn reply_of(call: MainToLoraCallKind) -> LoraToMainCall {
    match call {
        MainToLoraCallKind::Load => LoraToMainCall::Load,
        MainToLoraCallKind::Keypressed => LoraToMainCall::Keypressed,
        MainToLoraCallKind::Keyreleased => LoraToMainCall::Keyreleased,
        MainToLoraCallKind::Mousepressed => LoraToMainCall::Mousepressed,
        MainToLoraCallKind::Mousereleased => LoraToMainCall::Mousereleased,
        MainToLoraCallKind::MouseMoved => LoraToMainCall::MouseMoved,
        MainToLoraCallKind::MouseScrolled => LoraToMainCall::MouseScrolled,
        MainToLoraCallKind::Collision => LoraToMainCall::Collision,
        MainToLoraCallKind::Update => LoraToMainCall::Update,
        MainToLoraCallKind::Render => LoraToMainCall::Render,
        MainToLoraCallKind::Exit => LoraToMainCall::Exit,
    }
}

/// The field of the game's `lora` table that holds the callback for a call.
pub open spec fn callback_of(call: MainToLoraCallKind) -> Seq<char> {
    match call {
        MainToLoraCallKind::Load => "load"@,
        MainToLoraCallKind::Keypressed => "keypressed"@,
        MainToLoraCallKind::Keyreleased => "keyreleased"@,
        MainToLoraCallKind::Mousepressed => "mousepressed"@,
        MainToLoraCallKind::Mousereleased => "mousereleased"@,
        MainToLoraCallKind::MouseMoved => "mousemoved"@,
        MainToLoraCallKind::MouseScrolled => "mousescrolled"@,
        MainToLoraCallKind::Collision => "collision"@,
        MainToLoraCallKind::Update => "update"@,
        MainToLoraCallKind::Render => "render"@,
        MainToLoraCallKind::Exit => "exit"@,
    }
}

/// What the Lua thread does on a call: run the callback of that name, if
/// the game has one, send the reply, and stop serving calls if it is done.
pub struct LoraStep {
    pub callback: &'static str,
    pub reply: LoraToMainCall,
    pub finished: bool,
}

/// The Lua thread's answer to one call from the main thread.
pub fn dispatch(call: MainToLoraCallKind) -> (step: LoraStep)
    ensures
        step.callback@ == callback_of(call),
        step.reply == reply_of(call),
        step.finished == (call == MainToLoraCallKind::Exit),
{
    match call {
        MainToLoraCallKind::Load => LoraStep {
            callback: "load",
            reply: LoraToMainCall::Load,
            finished: false,
        },
        MainToLoraCallKind::Keypressed => LoraStep {
            callback: "keypressed",
            reply: LoraToMainCall::Keypressed,
            finished: false,
        },
        MainToLoraCallKind::Keyreleased => LoraStep {
            callback: "keyreleased",
            reply: LoraToMainCall::Keyreleased,
            finished: false,
        },
        MainToLoraCallKind::Mousepressed => LoraStep {
            callback: "mousepressed",
            reply: LoraToMainCall::Mousepressed,
            finished: false,
        },
        MainToLoraCallKind::Mousereleased => LoraStep {
            callback: "mousereleased",
            reply: LoraToMainCall::Mousereleased,
            finished: false,
        },
        MainToLoraCallKind::MouseMoved => LoraStep {
            callback: "mousemoved",
            reply: LoraToMainCall::MouseMoved,
            finished: false,
        },
        MainToLoraCallKind::MouseScrolled => LoraStep {
            callback: "mousescrolled",
            reply: LoraToMainCall::MouseScrolled,
            finished: false,
        },
        MainToLoraCallKind::Collision => LoraStep {
            callback: "collision",
            reply: LoraToMainCall::Collision,
            finished: false,
        },
        MainToLoraCallKind::Update => LoraStep {
            callback: "update",
            reply: LoraToMainCall::Update,
            finished: false,
        },
        MainToLoraCallKind::Render => LoraStep {
            callback: "render",
            reply: LoraToMainCall::Render,
            finished: false,
        },
        MainToLoraCallKind::Exit => LoraStep {
            callback: "exit",
            reply: LoraToMainCall::Exit,
            finished: true,
        },
    }
}

/// Law: the calls are answered one for one, each by the reply of its own
/// kind, so the main thread knows which call a reply closes; and the only
/// call after which the Lua thread stops is `Exit`.
pub proof fn law_reply_identifies_call(a: MainToLoraCallKind, b: MainToLoraCallKind)
    ensures
        reply_of(a) == reply_of(b) ==> a == b,
        reply_of(a) == LoraToMainCall::Exit <==> a == MainToLoraCallKind::Exit,
{
}

} // verus!

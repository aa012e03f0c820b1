//! Relay between an air-traffic simulator's WebSocket endpoints and a
//! rendering surface: command frames, the control writer's and telemetry
//! reader's decisions, and the navigation-aid file.
use vstd::prelude::*;
use vstd::string::StringExecFns;

pub mod command;
pub mod nav;
pub mod relay;

verus! {

pub open spec fn greeting_of(name: Seq<char>) -> Seq<char> {
    seq!['H', 'e', 'l', 'l', 'o', ',', ' '] + name + seq![
        '!',
        ' ',
        'Y',
        'o',
        'u',
        '\'',
        'v',
        'e',
        ' ',
        'b',
        'e',
        'e',
        'n',
        ' ',
        'g',
        'r',
        'e',
        'e',
        't',
        'e',
        'd',
        ' ',
        'f',
        'r',
        'o',
        'm',
        ' ',
        'R',
        'u',
        's',
        't',
        '!',
    ]
}

/// The diagnostic greeting that the front end can ask for.
pub fn greet(name: &str) -> (r: String)
    ensures
        r@ == greeting_of(name@),
{
    let mut out = String::new();
    proof {
        reveal_strlit("Hello, ");
        reveal_strlit("! You've been greeted from Rust!");
    }
    out.append("Hello, ");
    out.append(name);
    out.append("! You've been greeted from Rust!");
    out
}

} // verus!

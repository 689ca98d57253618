//! What crosses the boundary between the launcher and a plugin.

use vstd::prelude::*;

verus! {

/// What running a plugin's result does.
#[derive(Debug)]
pub enum RAction {
    Launch { path: String, args: String },
    LaunchUwp { aumid: String },
    OpenUri(String),
    CopyToClipboard(String),
}

/// A plugin's result. Its score is the plugin's own claim.
#[derive(Debug)]
pub struct RSearchResult {
    pub title: String,
    pub subtitle: String,
    pub action: RAction,
    pub score: i32,
}

/// How a plugin's tool shows its window.
#[derive(Clone, Copy, PartialEq, Eq, Structural, Debug)]
pub enum RGuiToolMode {
    /// The plugin owns a window with its own message loop.
    Standalone,
    /// The plugin makes a child window for the launcher to embed.
    Embedded,
}

/// How the launcher starts a tool.
#[derive(Clone, Copy, PartialEq, Eq, Structural, Debug)]
pub enum ToolCall {
    LaunchStandalone,
    CreateEmbedded { parent: usize },
}

/// The one call that a tool's mode admits.
pub fn tool_call(mode: RGuiToolMode, parent: usize) -> (r: ToolCall)
    ensures
        r == match mode {
            RGuiToolMode::Standalone => ToolCall::LaunchStandalone,
            RGuiToolMode::Embedded => ToolCall::CreateEmbedded { parent },
        },
{
    match mode {
        RGuiToolMode::Standalone => ToolCall::LaunchStandalone,
        RGuiToolMode::Embedded => ToolCall::CreateEmbedded { parent },
    }
}

/// The child window that an embedded tool made; 0 stands for a failure.
pub fn embedded_window(handle: usize) -> (r: Option<usize>)
    ensures
        r == if handle == 0 {
            None
        } else {
            Some(handle)
        },
{
    if handle == 0 {
        None
    } else {
        Some(handle)
    }
}

} // verus!

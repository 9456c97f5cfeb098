//! The tool contract that is built into the library.

use vstd::prelude::*;

verus! {

/// The contract, in YAML. Methods whose parameters are not listed in full pass other fields
/// through.
pub const BUNDLED: &'static str = "\
herdr_version: 0.7.0
methods:
  ping:
    group: observe
    description: Check that the herdr daemon is up and tell its version.
  server.agent_manifests:
    group: observe
    description: List the agent manifests that the daemon knows.
    passthrough: true
  server.stop:
    group: admin
    description: Stop the herdr daemon.
    danger: true
  server.live_handoff:
    group: admin
    description: Hand the session over to a new daemon.
    danger: true
    passthrough: true
  server.reload_config:
    group: admin
    description: Reload the configuration.
  server.reload_agent_manifests:
    group: admin
    description: Reload the agent manifests.
    passthrough: true
  notification.show:
    group: admin
    description: Show a notification.
    passthrough: true
  client.window_title.set:
    group: admin
    description: Set the window title of the client.
    passthrough: true
  client.window_title.clear:
    group: admin
    description: Clear the window title of the client.
    passthrough: true
  workspace.list:
    group: observe
    description: List the workspaces.
  workspace.get:
    group: observe
    description: Show one workspace.
    params:
      workspace_id:
        type: string
        required: true
        desc: Workspace id.
  workspace.create:
    group: structure
    description: Create a workspace.
    passthrough: true
    params:
      cwd:
        type: string
        desc: Working directory.
      label:
        type: string
        desc: Name to show.
  workspace.focus:
    group: structure
    description: Focus a workspace.
    params:
      workspace_id:
        type: string
        required: true
        desc: Workspace id.
  workspace.rename:
    group: structure
    description: Rename a workspace.
    params:
      workspace_id:
        type: string
        required: true
        desc: Workspace id.
      label:
        type: string
        required: true
        desc: Name to show.
  workspace.close:
    group: structure
    description: Close a workspace and all that runs in it.
    danger: true
    params:
      workspace_id:
        type: string
        required: true
        desc: Workspace id.
  worktree.list:
    group: observe
    description: List the git worktrees.
    passthrough: true
  worktree.create:
    group: structure
    description: Create a git worktree.
    passthrough: true
    params:
      branch:
        type: string
        desc: Branch of the worktree.
  worktree.open:
    group: structure
    description: Open a git worktree.
    passthrough: true
  worktree.remove:
    group: structure
    description: Remove a git worktree.
    danger: true
    passthrough: true
  tab.list:
    group: observe
    description: List the tabs.
    params:
      workspace_id:
        type: string
        desc: Workspace id; omit for the focused one.
  tab.get:
    group: observe
    description: Show one tab.
    params:
      tab_id:
        type: string
        required: true
        desc: Tab id.
  tab.create:
    group: structure
    description: Create a tab.
    passthrough: true
    params:
      workspace_id:
        type: string
        desc: Workspace id; omit for the focused one.
      label:
        type: string
        desc: Name to show.
  tab.focus:
    group: structure
    description: Focus a tab.
    params:
      tab_id:
        type: string
        required: true
        desc: Tab id.
  tab.rename:
    group: structure
    description: Rename a tab.
    params:
      tab_id:
        type: string
        required: true
        desc: Tab id.
      label:
        type: string
        required: true
        desc: Name to show.
  tab.close:
    group: structure
    description: Close a tab and all that runs in it.
    danger: true
    params:
      tab_id:
        type: string
        required: true
        desc: Tab id.
  pane.list:
    group: observe
    description: List the panes.
    passthrough: true
    params:
      workspace_id:
        type: string
        desc: Workspace id; omit for the focused one.
      tab_id:
        type: string
        desc: Tab id; omit for the focused one.
  pane.current:
    group: observe
    description: Show the focused pane.
    passthrough: true
  pane.get:
    group: observe
    description: Show one pane.
    params:
      pane_id:
        type: string
        required: true
        desc: Pane id.
  pane.read:
    group: observe
    description: Read the output of a pane.
    passthrough: true
    params:
      pane_id:
        type: string
        desc: Pane id; omit for the focused one.
      source:
        type: string
        required: true
        enum: [visible, recent, recent_unwrapped]
        desc: Which output to read.
      lines:
        type: integer
        desc: How many lines.
  pane.layout:
    group: observe
    description: Show how the panes of a tab are laid out.
    passthrough: true
  pane.process_info:
    group: observe
    description: Show the process of a pane.
    passthrough: true
  pane.neighbor:
    group: observe
    description: Show the neighbour of a pane.
    passthrough: true
  pane.edges:
    group: observe
    description: Show which edges a pane touches.
    passthrough: true
  pane.split:
    group: panes
    description: Split a pane.
    passthrough: true
    params:
      pane_id:
        type: string
        desc: Pane id; omit for the focused one.
      direction:
        type: string
        required: true
        enum: [right, down]
        desc: Where the new pane goes.
      ratio:
        type: number
        desc: Share of the space for the new pane.
  pane.swap:
    group: panes
    description: Swap two panes.
    passthrough: true
  pane.move:
    group: panes
    description: Move a pane.
    passthrough: true
  pane.zoom:
    group: panes
    description: Zoom a pane in or out.
    passthrough: true
    params:
      pane_id:
        type: string
        desc: Pane id; omit for the focused one.
  pane.focus_direction:
    group: panes
    description: Focus the pane in a direction.
    passthrough: true
  pane.resize:
    group: panes
    description: Resize a pane.
    passthrough: true
  pane.rename:
    group: panes
    description: Rename a pane.
    passthrough: true
    params:
      pane_id:
        type: string
        desc: Pane id; omit for the focused one.
  pane.close:
    group: panes
    description: Close a pane and what runs in it.
    danger: true
    params:
      pane_id:
        type: string
        required: true
        desc: Pane id.
  layout.export:
    group: observe
    description: Export the layout.
    passthrough: true
  layout.apply:
    group: panes
    description: Apply a layout.
    passthrough: true
  pane.send_text:
    group: io
    description: Type text into a pane without submitting it.
    passthrough: true
    params:
      pane_id:
        type: string
        desc: Pane id; omit for the focused one.
      text:
        type: string
        required: true
        desc: Text to type.
  pane.send_keys:
    group: io
    description: Press keys in a pane.
    passthrough: true
    params:
      pane_id:
        type: string
        desc: Pane id; omit for the focused one.
  pane.send_input:
    group: io
    description: Type a line into a pane and submit it.
    passthrough: true
    params:
      pane_id:
        type: string
        desc: Pane id; omit for the focused one.
  pane.wait_for_output:
    group: io
    description: Wait until a pane shows a text.
    passthrough: true
    params:
      pane_id:
        type: string
        required: true
        desc: Pane id.
      source:
        type: string
        required: true
        enum: [visible, recent, recent_unwrapped]
        desc: Which output to read.
      match:
        type: object
        required: true
        desc: What to wait for.
      lines:
        type: integer
        desc: How many lines.
      timeout_ms:
        type: integer
        desc: Give up after this many milliseconds.
  pane.report_agent:
    group: authority
    description: Report the agent of a pane.
    passthrough: true
  pane.report_agent_session:
    group: authority
    description: Report the session of the agent of a pane.
    passthrough: true
  pane.report_metadata:
    group: authority
    description: Report metadata of a pane.
    passthrough: true
  pane.clear_agent_authority:
    group: authority
    description: Give up the authority over the agent of a pane.
    passthrough: true
  pane.release_agent:
    group: authority
    description: Release the agent of a pane.
    passthrough: true
  agent.list:
    group: observe
    description: List the agents.
    passthrough: true
    params:
      workspace_id:
        type: string
        desc: Workspace id; omit for the focused one.
  agent.get:
    group: observe
    description: Show one agent.
    params:
      target:
        type: string
        required: true
        desc: Agent as terminal id, pane id or unambiguous name.
  agent.read:
    group: observe
    description: Read the output of an agent.
    passthrough: true
    params:
      target:
        type: string
        required: true
        desc: Agent as terminal id, pane id or unambiguous name.
      source:
        type: string
        required: true
        enum: [visible, recent, recent_unwrapped]
        desc: Which output to read.
      lines:
        type: integer
        desc: How many lines.
  agent.explain:
    group: observe
    description: Explain what an agent is doing.
    passthrough: true
    params:
      target:
        type: string
        required: true
        desc: Agent as terminal id, pane id or unambiguous name.
  agent.start:
    group: agents
    description: Start an agent.
    passthrough: true
    params:
      name:
        type: string
        required: true
        desc: Which agent.
  agent.send:
    group: agents
    description: Give an agent an instruction.
    params:
      target:
        type: string
        required: true
        desc: Agent as terminal id, pane id or unambiguous name.
      text:
        type: string
        required: true
        desc: The instruction.
  agent.rename:
    group: agents
    description: Rename an agent.
    passthrough: true
    params:
      target:
        type: string
        required: true
        desc: Agent as terminal id, pane id or unambiguous name.
  agent.focus:
    group: agents
    description: Focus the pane of an agent.
    params:
      target:
        type: string
        required: true
        desc: Agent as terminal id, pane id or unambiguous name.
  events.subscribe:
    group: events
    description: Subscribe to events.
    passthrough: true
  events.wait:
    group: events
    description: Wait for an event.
    params:
      match_event:
        type: object
        required: true
        desc: The event to wait for.
      timeout_ms:
        type: integer
        desc: Give up after this many milliseconds.
  integration.install:
    group: admin
    description: Install an integration.
    passthrough: true
  integration.uninstall:
    group: admin
    description: Uninstall an integration.
    danger: true
    passthrough: true
  plugin.list:
    group: observe
    description: List the plugins.
    passthrough: true
  plugin.action.list:
    group: observe
    description: List the actions of the plugins.
    passthrough: true
  plugin.log.list:
    group: observe
    description: List the log of the plugins.
    passthrough: true
  plugin.link:
    group: admin
    description: Link a plugin.
    passthrough: true
  plugin.unlink:
    group: admin
    description: Unlink a plugin.
    danger: true
    passthrough: true
  plugin.enable:
    group: admin
    description: Enable a plugin.
    passthrough: true
  plugin.disable:
    group: admin
    description: Disable a plugin.
    passthrough: true
  plugin.action.invoke:
    group: admin
    description: Invoke an action of a plugin.
    passthrough: true
  plugin.pane.open:
    group: admin
    description: Open the pane of a plugin.
    passthrough: true
  plugin.pane.focus:
    group: admin
    description: Focus the pane of a plugin.
    passthrough: true
  plugin.pane.close:
    group: admin
    description: Close the pane of a plugin.
    danger: true
    passthrough: true
";

} // verus!

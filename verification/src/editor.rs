//! Editor state: the panels, the console log, the entity selection and the
//! bookkeeping of what the engine reports, with the decisions the editor
//! takes on each engine event and each button. Drawing the panels and the
//! channels to the engine live with the windowing front end.

use vstd::prelude::*;

use crate::engine::{EntitySnapshot, LogLevel};

verus! {

/// The character of a decimal digit.
pub open spec fn digit_char(d: nat) -> char {
    if d == 0 {
        '0'
    } else if d == 1 {
        '1'
    } else if d == 2 {
        '2'
    } else if d == 3 {
        '3'
    } else if d == 4 {
        '4'
    } else if d == 5 {
        '5'
    } else if d == 6 {
        '6'
    } else if d == 7 {
        '7'
    } else if d == 8 {
        '8'
    } else {
        '9'
    }
}

/// The decimal notation of `n`, without leading zeros.
pub open spec fn decimal(n: nat) -> Seq<char>
    decreases n,
{
    if n < 10 {
        seq![digit_char(n)]
    } else {
        decimal(n / 10).push(digit_char(n % 10))
    }
}

/// The one-character string of digit `d`.
fn digit_str(d: u64) -> (s: &'static str)
    requires
        d < 10,
    ensures
        s@ == seq![digit_char(d as nat)],
{
    proof {
        reveal_strlit("0");
        reveal_strlit("1");
        reveal_strlit("2");
        reveal_strlit("3");
        reveal_strlit("4");
        reveal_strlit("5");
        reveal_strlit("6");
        reveal_strlit("7");
        reveal_strlit("8");
        reveal_strlit("9");
    }
    if d == 0 {
        "0"
    } else if d == 1 {
        "1"
    } else if d == 2 {
        "2"
    } else if d == 3 {
        "3"
    } else if d == 4 {
        "4"
    } else if d == 5 {
        "5"
    } else if d == 6 {
        "6"
    } else if d == 7 {
        "7"
    } else if d == 8 {
        "8"
    } else {
        "9"
    }
}

/// The decimal notation of `n`.
pub fn decimal_string(n: u64) -> (s: String)
    ensures
        s@ == decimal(n as nat),
    decreases n,
{
    if n < 10 {
        String::from_str(digit_str(n))
    } else {
        let mut s = decimal_string(n / 10);
        s.append(digit_str(n % 10));
        s
    }
}

/// `prefix` followed by the decimal notation of `n`.
fn numbered(prefix: &str, n: u64) -> (s: String)
    ensures
        s@ == prefix@ + decimal(n as nat),
{
    let mut s = String::from_str(prefix);
    let digits = decimal_string(n);
    s.append(digits.as_str());
    s
}

/// The most console lines the editor keeps when the engine logs a line.
pub const CONSOLE_CAPACITY: usize = 500;

/// What the engine reports to the editor (the frame timing, a float, is
/// handled by the front end).
pub enum EditorEvent {
    /// A frame was rendered.
    Frame { rgba: Vec<u8>, width: u32, height: u32, frame_number: u64 },
    /// Entity list snapshot.
    EntityList { entities: Vec<EntitySnapshot> },
    /// Console log line.
    ConsoleLog { level: LogLevel, message: String },
    /// Engine has fully initialized.
    Initialized { gpu_name: String, backend: String },
    /// Engine is shutting down.
    Shutdown,
    /// Physics step completed.
    PhysicsStepDone { bodies_active: u32, collisions: u32 },
}

/// The text of each console line, with its level.
pub open spec fn log_view(log: Seq<(LogLevel, String)>) -> Seq<(LogLevel, Seq<char>)> {
    log.map_values(|p: (LogLevel, String)| (p.0, p.1@))
}

/// The console after the engine logs `line`: the last `CONSOLE_CAPACITY`
/// lines of the log with `line` appended.
pub open spec fn log_after_engine_line(
    log: Seq<(LogLevel, Seq<char>)>,
    line: (LogLevel, Seq<char>),
) -> Seq<(LogLevel, Seq<char>)> {
    let all = log.push(line);
    if all.len() > CONSOLE_CAPACITY {
        all.subrange(all.len() - CONSOLE_CAPACITY, all.len() as int)
    } else {
        all
    }
}

/// The label of an entity in the hierarchy: its name, or "Entity <index>"
/// when it has none.
pub open spec fn entity_label_text(name: Seq<char>, index: u32) -> Seq<char> {
    if name.len() == 0 {
        "Entity "@ + decimal(index as nat)
    } else {
        name
    }
}

/// The editor's state apart from the window, the GPU and the channels.
pub struct EditorState {
    pub show_hierarchy: bool,
    pub show_inspector: bool,
    pub show_console: bool,
    pub show_toolbar: bool,
    pub selected_entity: Option<u32>,
    pub entities: Vec<EntitySnapshot>,
    pub console_log: Vec<(LogLevel, String)>,
    pub paused: bool,
    pub viewport_rgba: Vec<u8>,
    pub viewport_size: (u32, u32),
    pub engine_frame: u64,
    pub engine_connected: bool,
}

impl EditorState {
    /// Which panels are shown: hierarchy, inspector, console, toolbar.
    pub open spec fn panels(&self) -> (bool, bool, bool, bool) {
        (self.show_hierarchy, self.show_inspector, self.show_console, self.show_toolbar)
    }

    /// The viewport: the last frame's pixels, its size and its number.
    pub open spec fn viewport(&self) -> (Seq<u8>, (u32, u32), u64) {
        (self.viewport_rgba@, self.viewport_size, self.engine_frame)
    }

    /// All panels shown, nothing selected, an empty console, running, an
    /// 800x600 viewport and no engine yet.
    pub fn new() -> (e: EditorState)
        ensures
            e.show_hierarchy && e.show_inspector && e.show_console && e.show_toolbar,
            e.selected_entity is None,
            e.entities@.len() == 0,
            e.console_log@.len() == 0,
            !e.paused,
            e.viewport_rgba@.len() == 0,
            e.viewport_size == (800u32, 600u32),
            e.engine_frame == 0,
            !e.engine_connected,
    {
        EditorState {
            show_hierarchy: true,
            show_inspector: true,
            show_console: true,
            show_toolbar: true,
            selected_entity: None,
            entities: Vec::new(),
            console_log: Vec::new(),
            paused: false,
            viewport_rgba: Vec::new(),
            viewport_size: (800, 600),
            engine_frame: 0,
            engine_connected: false,
        }
    }

    /// Append a line from the engine, keeping only the last
    /// `CONSOLE_CAPACITY` lines.
    pub fn push_engine_log(&mut self, level: LogLevel, message: String)
        ensures
            log_view(final(self).console_log@) == log_after_engine_line(
                log_view(old(self).console_log@),
                (level, message@),
            ),
            final(self).entities@ == old(self).entities@,
            final(self).selected_entity == old(self).selected_entity,
            final(self).engine_connected == old(self).engine_connected,
            final(self).paused == old(self).paused,
            final(self).panels() == old(self).panels(),
            final(self).viewport() == old(self).viewport(),
    {
        let ghost mv = message@;
        self.console_log.push((level, message));
        proof {
            assert(log_view(self.console_log@) =~= log_view(old(self).console_log@).push((level, mv)));
        }
        let n = self.console_log.len();
        if n > CONSOLE_CAPACITY {
            let ghost before = self.console_log@;
            let kept = self.console_log.split_off(n - CONSOLE_CAPACITY);
            self.console_log = kept;
            proof {
                assert(log_view(self.console_log@) =~= log_view(before).subrange(
                    n - CONSOLE_CAPACITY,
                    n as int,
                ));
            }
        }
    }

    /// Append a line written by the editor itself (no trimming).
    fn push_log(&mut self, level: LogLevel, message: String)
        ensures
            log_view(final(self).console_log@) == log_view(old(self).console_log@).push((level, message@)),
            final(self).entities@ == old(self).entities@,
            final(self).selected_entity == old(self).selected_entity,
            final(self).engine_connected == old(self).engine_connected,
            final(self).paused == old(self).paused,
            final(self).panels() == old(self).panels(),
            final(self).viewport() == old(self).viewport(),
    {
        let ghost mv = message@;
        self.console_log.push((level, message));
        assert(log_view(self.console_log@) =~= log_view(old(self).console_log@).push((level, mv)));
    }

    /// Take in an event from the engine. Returns `true` when the viewport
    /// image changed and its texture must be uploaded again.
    pub fn apply_event(&mut self, event: EditorEvent) -> (refresh: bool)
        ensures
            refresh == (event is Frame),
            match event {
                EditorEvent::Frame { rgba, width, height, frame_number } => {
                    &&& final(self).engine_frame == frame_number
                    &&& final(self).viewport_rgba@ == rgba@
                    &&& final(self).viewport_size == (width, height)
                    &&& final(self).console_log@ == old(self).console_log@
                    &&& final(self).entities@ == old(self).entities@
                    &&& final(self).engine_connected == old(self).engine_connected
                },
                EditorEvent::EntityList { entities } => {
                    &&& final(self).entities@ == entities@
                    &&& final(self).console_log@ == old(self).console_log@
                    &&& final(self).engine_connected == old(self).engine_connected
                },
                EditorEvent::ConsoleLog { level, message } => {
                    &&& log_view(final(self).console_log@) == log_after_engine_line(
                        log_view(old(self).console_log@),
                        (level, message@),
                    )
                    &&& final(self).entities@ == old(self).entities@
                    &&& final(self).engine_connected == old(self).engine_connected
                },
                EditorEvent::Initialized { gpu_name, backend } => {
                    &&& final(self).engine_connected
                    &&& log_view(final(self).console_log@) == log_view(old(self).console_log@).push(
                        (LogLevel::Info, "Engine connected: "@ + gpu_name@ + " ("@ + backend@ + ")"@),
                    )
                    &&& final(self).entities@ == old(self).entities@
                },
                EditorEvent::Shutdown => {
                    &&& !final(self).engine_connected
                    &&& log_view(final(self).console_log@) == log_view(old(self).console_log@).push(
                        (LogLevel::Warn, "Engine disconnected"@),
                    )
                    &&& final(self).entities@ == old(self).entities@
                },
                EditorEvent::PhysicsStepDone { .. } => {
                    &&& final(self).console_log@ == old(self).console_log@
                    &&& final(self).entities@ == old(self).entities@
                    &&& final(self).engine_connected == old(self).engine_connected
                },
            },
            final(self).selected_entity == old(self).selected_entity,
            final(self).paused == old(self).paused,
            final(self).panels() == old(self).panels(),
            !(event is Frame) ==> final(self).viewport() == old(self).viewport(),
    {
        match event {
            EditorEvent::Initialized { gpu_name, backend } => {
                self.engine_connected = true;
                let mut line = String::from_str("Engine connected: ");
                line.append(gpu_name.as_str());
                line.append(" (");
                line.append(backend.as_str());
                line.append(")");
                self.push_log(LogLevel::Info, line);
                false
            },
            EditorEvent::Frame { rgba, width, height, frame_number } => {
                self.engine_frame = frame_number;
                self.viewport_rgba = rgba;
                self.viewport_size = (width, height);
                true
            },
            EditorEvent::EntityList { entities } => {
                self.entities = entities;
                false
            },
            EditorEvent::ConsoleLog { level, message } => {
                self.push_engine_log(level, message);
                false
            },
            EditorEvent::Shutdown => {
                self.engine_connected = false;
                self.push_log(LogLevel::Warn, String::from_str("Engine disconnected"));
                false
            },
            EditorEvent::PhysicsStepDone { bodies_active, collisions } => false,
        }
    }

    /// The Play/Pause button: flip the pause state; the result is the new
    /// state, which the editor sends to the engine.
    pub fn toggle_pause(&mut self) -> (paused: bool)
        ensures
            paused == !old(self).paused,
            final(self).paused == paused,
            final(self).console_log@ == old(self).console_log@,
            final(self).entities@ == old(self).entities@,
            final(self).selected_entity == old(self).selected_entity,
            final(self).panels() == old(self).panels(),
            final(self).viewport() == old(self).viewport(),
            final(self).engine_connected == old(self).engine_connected,
    {
        self.paused = !self.paused;
        self.paused
    }

    /// The menu button of the toolbar: show or hide the toolbar.
    pub fn toggle_toolbar(&mut self)
        ensures
            final(self).show_toolbar == !old(self).show_toolbar,
            final(self).paused == old(self).paused,
            final(self).console_log@ == old(self).console_log@,
            final(self).entities@ == old(self).entities@,
            final(self).selected_entity == old(self).selected_entity,
            final(self).show_hierarchy == old(self).show_hierarchy,
            final(self).show_inspector == old(self).show_inspector,
            final(self).show_console == old(self).show_console,
            final(self).viewport() == old(self).viewport(),
            final(self).engine_connected == old(self).engine_connected,
    {
        self.show_toolbar = !self.show_toolbar;
    }

    /// The name the "+ Entity" buttons give a new entity: "Entity_<count>".
    pub fn new_entity_name(&self) -> (name: String)
        ensures
            name@ == "Entity_"@ + decimal(self.entities@.len()),
    {
        numbered("Entity_", self.entities.len() as u64)
    }

    /// Select the entity with the given index (a click in the hierarchy).
    pub fn select_entity(&mut self, index: u32)
        ensures
            final(self).selected_entity == Some(index),
            final(self).paused == old(self).paused,
            final(self).console_log@ == old(self).console_log@,
            final(self).entities@ == old(self).entities@,
            final(self).panels() == old(self).panels(),
            final(self).viewport() == old(self).viewport(),
            final(self).engine_connected == old(self).engine_connected,
    {
        self.selected_entity = Some(index);
    }

    /// Whether the entity with the given index is the selected one.
    pub fn is_selected(&self, index: u32) -> (b: bool)
        ensures
            b == (self.selected_entity == Some(index)),
    {
        match self.selected_entity {
            Some(i) => i == index,
            None => false,
        }
    }

    /// The snapshot of the selected entity: the first one with its index.
    pub fn selected_snapshot(&self) -> (r: Option<&EntitySnapshot>)
        ensures
            self.selected_entity is None ==> r is None,
            self.selected_entity matches Some(idx) ==> match r {
                Some(s) => exists|k: int|
                    0 <= k < self.entities@.len() && self.entities@[k] == *s && s.index == idx && forall|j: int|
                        0 <= j < k ==> (#[trigger] self.entities@[j]).index != idx,
                None => forall|j: int| 0 <= j < self.entities@.len() ==> (#[trigger] self.entities@[j]).index != idx,
            },
    {
        let idx = match self.selected_entity {
            Some(i) => i,
            None => {
                return None;
            },
        };
        let mut k: usize = 0;
        while k < self.entities.len()
            invariant
                k <= self.entities@.len(),
                self.selected_entity == Some(idx),
                forall|j: int| 0 <= j < k ==> (#[trigger] self.entities@[j]).index != idx,
            decreases self.entities@.len() - k,
        {
            if self.entities[k].index == idx {
                return Some(&self.entities[k]);
            }
            k = k + 1;
        }
        None
    }

    /// Submit a line typed into the console: an empty line is ignored;
    /// otherwise it is echoed as "> <line>" and returned, to be sent to the
    /// engine as a console command.
    pub fn submit_console_command(&mut self, line: String) -> (cmd: Option<String>)
        ensures
            line@.len() == 0 ==> cmd is None && final(self).console_log@ == old(self).console_log@,
            line@.len() > 0 ==> {
                &&& cmd matches Some(c) && c@ == line@
                &&& log_view(final(self).console_log@) == log_view(old(self).console_log@).push(
                    (LogLevel::Info, "> "@ + line@),
                )
            },
            final(self).paused == old(self).paused,
            final(self).entities@ == old(self).entities@,
            final(self).selected_entity == old(self).selected_entity,
            final(self).panels() == old(self).panels(),
            final(self).viewport() == old(self).viewport(),
            final(self).engine_connected == old(self).engine_connected,
    {
        if line.as_str().unicode_len() == 0 {
            return None;
        }
        let mut echo = String::from_str("> ");
        echo.append(line.as_str());
        self.push_log(LogLevel::Info, echo);
        Some(line)
    }
}

/// The label of `entity` in the hierarchy panel.
pub fn entity_label(entity: &EntitySnapshot) -> (label: String)
    ensures
        label@ == entity_label_text(entity.name@, entity.index),
{
    if entity.name.as_str().unicode_len() == 0 {
        numbered("Entity ", entity.index as u64)
    } else {
        entity.name.clone()
    }
}

/// The snapshot the engine reports for the entity at `index`: named
/// "Entity_<index>", with only the transform flag taken from the world.
pub fn entity_snapshot(index: u32, has_transform: bool) -> (s: EntitySnapshot)
    ensures
        s.index == index,
        s.name@ == "Entity_"@ + decimal(index as nat),
        s.has_transform == has_transform,
        !s.has_rigid_body,
        !s.has_collider,
{
    EntitySnapshot {
        index,
        name: numbered("Entity_", index as u64),
        has_transform,
        has_rigid_body: false,
        has_collider: false,
    }
}

/// Law: after the engine logs a line the console holds at most
/// `CONSOLE_CAPACITY` lines, the line just logged is the last one, and
/// below the capacity nothing is dropped.
pub proof fn law_console_bounded(log: Seq<(LogLevel, Seq<char>)>, line: (LogLevel, Seq<char>))
    ensures
        log_after_engine_line(log, line).len() <= CONSOLE_CAPACITY,
        log_after_engine_line(log, line).last() == line,
        log.len() < CONSOLE_CAPACITY ==> log_after_engine_line(log, line) == log.push(line),
{
}

} // verus!

//! The environment: the frames that bind symbols to values, each with at most one parent,
//! the cells that atoms name, and what passes between a program and its host.
//!
//! Frames and cells are named by their place in the environment, and none is ever taken
//! away. A lookup goes on from a frame only to a parent that stands before it, so it
//! walks towards the root and ends.

use crate::interpreter::{rep, rep_line};
use crate::prelude;
use crate::text::same_text;
use crate::types::{
    find_key, insert_entry, lookup, view_items, Builtin, Handle, MalInt, MalObject, MalSymbol,
    PrimitiveEval, PrimitiveFn, PrimitiveFnRef, Value,
};
use vstd::prelude::*;

verus! {

/// A symbol that no frame on the way to the root binds.
#[derive(Debug)]
pub struct UnknownSymbol(pub MalSymbol);

/// A frame: its bindings, in the order in which their symbols were first bound, and the
/// frame in which a lookup goes on.
#[derive(Debug)]
pub struct Frame {
    pub data: Vec<(MalSymbol, MalObject)>,
    pub parent: Option<Handle>,
}

/// The mathematical view of a [`Frame`].
pub struct FrameView {
    pub data: Seq<(Seq<char>, Value)>,
    pub parent: Option<Handle>,
}

/// The bindings of a frame, as names and values.
pub open spec fn view_bindings(data: Seq<(MalSymbol, MalObject)>) -> Seq<(Seq<char>, Value)> {
    Seq::new(data.len(), |i: int| (data[i].0@, data[i].1@))
}

impl View for Frame {
    type V = FrameView;

    open spec fn view(&self) -> FrameView {
        FrameView { data: view_bindings(self.data@), parent: self.parent }
    }
}

/// A file as the host has read it: its path, and its text or why it could not be read.
#[derive(Debug)]
pub struct HostFile {
    pub path: String,
    pub contents: Result<String, String>,
}

impl Clone for HostFile {
    fn clone(&self) -> (r: Self)
        ensures
            r@ == self@,
    {
        HostFile {
            path: self.path.clone(),
            contents: match &self.contents {
                Ok(text) => Ok(text.clone()),
                Err(why) => Err(why.clone()),
            },
        }
    }
}

/// The mathematical view of a [`HostFile`].
pub struct FileView {
    pub path: Seq<char>,
    pub contents: Result<Seq<char>, Seq<char>>,
}

impl View for HostFile {
    type V = FileView;

    open spec fn view(&self) -> FileView {
        FileView {
            path: self.path@,
            contents: match self.contents {
                Ok(text) => Ok(text@),
                Err(why) => Err(why@),
            },
        }
    }
}

/// What passes between a program and its host: the lines that the program has printed
/// and the host has not taken yet; the lines that the host has read for it, `None` for
/// the end of the input; the files that the host has read for it; and the host's clock.
#[derive(Debug)]
pub struct Host {
    pub output: Vec<String>,
    pub input: Vec<Option<String>>,
    pub files: Vec<HostFile>,
    pub clock_ms: MalInt,
}

/// The mathematical view of a [`Host`].
pub struct HostView {
    pub output: Seq<Seq<char>>,
    pub input: Seq<Option<Seq<char>>>,
    pub files: Seq<FileView>,
    pub clock_ms: MalInt,
}

impl View for Host {
    type V = HostView;

    open spec fn view(&self) -> HostView {
        HostView {
            output: Seq::new(self.output@.len(), |i: int| self.output@[i]@),
            input: Seq::new(
                self.input@.len(),
                |i: int|
                    match self.input@[i] {
                        Some(line) => Some(line@),
                        None => None,
                    },
            ),
            files: Seq::new(self.files@.len(), |i: int| self.files@[i]@),
            clock_ms: self.clock_ms,
        }
    }
}

/// The environment of an interpreter. Frame 0 is the root.
#[derive(Debug)]
pub struct Environment {
    pub frames: Vec<Frame>,
    pub cells: Vec<MalObject>,
    pub host: Host,
    /// How many steps one evaluation may take.
    pub step_limit: usize,
}

/// The mathematical view of an [`Environment`].
pub struct State {
    pub frames: Seq<FrameView>,
    pub cells: Seq<Value>,
    pub host: HostView,
    pub step_limit: usize,
}

impl View for Environment {
    type V = State;

    open spec fn view(&self) -> State {
        State {
            frames: Seq::new(self.frames@.len(), |i: int| self.frames@[i]@),
            cells: view_items(self.cells@),
            host: self.host@,
            step_limit: self.step_limit,
        }
    }
}

/// The root frame.
pub open spec fn root() -> Handle {
    0
}

/// How many steps an evaluation may take where the host has not said otherwise.
pub open spec fn default_step_limit() -> usize {
    1000000
}

impl State {
    /// The value that `key` is bound to for a lookup that starts in frame `scope`: that of
    /// the first frame that binds it on the way from parent to parent.
    pub open spec fn get(self, scope: Handle, key: Seq<char>) -> Option<Value>
        decreases scope,
    {
        if scope >= self.frames.len() {
            None
        } else {
            match lookup(self.frames[scope as int].data, key) {
                Some(value) => Some(value),
                None => match self.frames[scope as int].parent {
                    Some(parent) => if parent < scope {
                        self.get(parent, key)
                    } else {
                        None
                    },
                    None => None,
                },
            }
        }
    }

    /// The state after binding `key` to `value` in frame `scope`, and in no other.
    pub open spec fn set(self, scope: Handle, key: Seq<char>, value: Value) -> State {
        if scope >= self.frames.len() {
            self
        } else {
            State {
                frames: self.frames.update(
                    scope as int,
                    FrameView {
                        data: insert_entry(self.frames[scope as int].data, key, value),
                        parent: self.frames[scope as int].parent,
                    },
                ),
                ..self
            }
        }
    }

    /// The state with one more frame, empty and with the given parent. The new frame's
    /// handle is the number of frames before.
    pub open spec fn spawn(self, parent: Handle) -> State {
        State {
            frames: self.frames.push(FrameView { data: Seq::empty(), parent: Some(parent) }),
            ..self
        }
    }

    /// The state with one more cell, which holds `value`. The new cell's handle is the
    /// number of cells before.
    pub open spec fn add_cell(self, value: Value) -> State {
        State { cells: self.cells.push(value), ..self }
    }

    /// What the cell `cell` holds.
    pub open spec fn cell(self, cell: Handle) -> Option<Value> {
        if cell < self.cells.len() {
            Some(self.cells[cell as int])
        } else {
            None
        }
    }

    /// The state after storing `value` in the cell `cell`.
    pub open spec fn store(self, cell: Handle, value: Value) -> State {
        if cell < self.cells.len() {
            State { cells: self.cells.update(cell as int, value), ..self }
        } else {
            self
        }
    }

    /// The state after the program has printed a line.
    pub open spec fn print(self, line: Seq<char>) -> State {
        State { host: HostView { output: self.host.output.push(line), ..self.host }, ..self }
    }

    /// The state after the program has taken the first line of the input.
    pub open spec fn take_line(self) -> State {
        State { host: HostView { input: self.host.input.skip(1), ..self.host }, ..self }
    }

    /// The state with nothing but an empty root frame.
    pub open spec fn empty() -> State {
        State {
            frames: seq![FrameView { data: Seq::empty(), parent: None }],
            cells: Seq::empty(),
            host: HostView {
                output: Seq::empty(),
                input: Seq::empty(),
                files: Seq::empty(),
                clock_ms: 0,
            },
            step_limit: default_step_limit(),
        }
    }

    /// The empty state after binding the first `n` built-in operations under their names.
    pub open spec fn with_builtins(n: int) -> State
        decreases n,
    {
        if n <= 0 {
            State::empty()
        } else {
            let op = Builtin::every()[n - 1];
            State::with_builtins(n - 1).set(
                root(),
                op.spec_name()@,
                Value::Primitive(op, Box::new(Value::Nil)),
            )
        }
    }

    /// The state that an interpreter starts from: every built-in operation bound under
    /// its name in the root frame, and `*host-language*` bound to the implementation's name.
    pub open spec fn initial() -> State {
        State::with_builtins(Builtin::every().len() as int).set(
            root(),
            "*host-language*"@,
            Value::String("rust-dmr"@),
        )
    }
}

/// Where `key` stands among the bindings, if it does.
pub fn binding_of(data: &Vec<(MalSymbol, MalObject)>, key: &MalSymbol) -> (r: Option<usize>)
    ensures
        match r {
            Some(i) => find_key(view_bindings(data@), key@, 0) == Some(i as int) && i < data.len(),
            None => find_key(view_bindings(data@), key@, 0) is None,
        },
{
    let mut i: usize = 0;
    while i < data.len()
        invariant
            i <= data.len(),
            find_key(view_bindings(data@), key@, 0) == find_key(
                view_bindings(data@),
                key@,
                i as int,
            ),
        decreases data.len() - i,
    {
        if same_text(data[i].0.0.as_str(), key.0.as_str()) {
            return Some(i);
        }
        i += 1;
    }
    None
}

impl Environment {
    /// Binds `key` to `value` in the root frame and returns what it was bound to there.
    pub fn set(&mut self, key: MalSymbol, value: MalObject) -> (prior: Option<MalObject>)
        ensures
            final(self)@ == old(self)@.set(root(), key@, value@),
            match prior {
                Some(v) => old(self)@.frames.len() > 0 && lookup(old(self)@.frames[0].data, key@)
                    == Some(v@),
                None => old(self)@.frames.len() == 0 || lookup(old(self)@.frames[0].data, key@)
                    is None,
            },
    {
        self.set_in(0, key, value)
    }

    /// Binds `key` to `value` in frame `scope` and returns what it was bound to there.
    /// Nothing changes where there is no such frame.
    pub fn set_in(&mut self, scope: Handle, key: MalSymbol, value: MalObject) -> (prior: Option<
        MalObject,
    >)
        ensures
            final(self)@ == old(self)@.set(scope, key@, value@),
            match prior {
                Some(v) => scope < old(self)@.frames.len() && lookup(
                    old(self)@.frames[scope as int].data,
                    key@,
                ) == Some(v@),
                None => scope >= old(self)@.frames.len() || lookup(
                    old(self)@.frames[scope as int].data,
                    key@,
                ) is None,
            },
    {
        if scope >= self.frames.len() {
            return None;
        }
        let ghost before = self@;
        let ghost data = view_bindings(self.frames[scope as int].data@);
        match binding_of(&self.frames[scope].data, &key) {
            Some(i) => {
                let prior = self.frames[scope].data[i].1.clone();
                self.frames[scope].data[i] = (key, value);
                proof {
                    assert(view_bindings(self.frames[scope as int].data@) =~= data.update(
                        i as int,
                        (key@, value@),
                    ));
                    assert(self@.frames =~= before.set(scope, key@, value@).frames);
                }
                Some(prior)
            },
            None => {
                self.frames[scope].data.push((key, value));
                proof {
                    assert(view_bindings(self.frames[scope as int].data@) =~= data.push(
                        (key@, value@),
                    ));
                    assert(self@.frames =~= before.set(scope, key@, value@).frames);
                }
                None
            },
        }
    }

    /// The value that `key` is bound to for a lookup that starts in the root frame.
    pub fn get(&self, key: &MalSymbol) -> (r: Option<MalObject>)
        ensures
            match r {
                Some(v) => self@.get(root(), key@) == Some(v@),
                None => self@.get(root(), key@) is None,
            },
    {
        self.get_from(0, key)
    }

    /// The value that `key` is bound to for a lookup that starts in frame `scope`.
    pub fn get_from(&self, scope: Handle, key: &MalSymbol) -> (r: Option<MalObject>)
        ensures
            match r {
                Some(v) => self@.get(scope, key@) == Some(v@),
                None => self@.get(scope, key@) is None,
            },
    {
        let mut cur: usize = scope;
        loop
            invariant
                self@.get(scope, key@) == self@.get(cur, key@),
            decreases cur,
        {
            if cur >= self.frames.len() {
                return None;
            }
            assert(self@.frames[cur as int].data == view_bindings(self.frames[cur as int].data@));
            match binding_of(&self.frames[cur].data, key) {
                Some(i) => {
                    return Some(self.frames[cur].data[i].1.clone());
                },
                None => {},
            }
            match self.frames[cur].parent {
                Some(parent) => {
                    if parent < cur {
                        cur = parent;
                    } else {
                        return None;
                    }
                },
                None => {
                    return None;
                },
            }
        }
    }

    /// The value that `key` is bound to for a lookup that starts in frame `scope`, or the
    /// symbol as the error where nothing binds it.
    pub fn fetch(&self, scope: Handle, key: &MalSymbol) -> (r: Result<MalObject, UnknownSymbol>)
        ensures
            match r {
                Ok(v) => self@.get(scope, key@) == Some(v@),
                Err(e) => self@.get(scope, key@) is None && e.0@ == key@,
            },
    {
        match self.get_from(scope, key) {
            Some(v) => Ok(v),
            None => Err(UnknownSymbol(key.clone())),
        }
    }

    /// An environment with nothing but an empty root frame.
    pub fn empty() -> (r: Self)
        ensures
            r@ == State::empty(),
    {
        let mut frames: Vec<Frame> = Vec::new();
        frames.push(Frame { data: Vec::new(), parent: None });
        let r = Environment {
            frames,
            cells: Vec::new(),
            host: Host { output: Vec::new(), input: Vec::new(), files: Vec::new(), clock_ms: 0 },
            step_limit: 1000000,
        };
        proof {
            assert(view_bindings(r.frames[0].data@) =~= Seq::empty());
            assert(r@.frames =~= State::empty().frames);
            assert(r@.cells =~= State::empty().cells);
            assert(r@.host.output =~= State::empty().host.output);
            assert(r@.host.input =~= State::empty().host.input);
            assert(r@.host.files =~= State::empty().host.files);
        }
        r
    }

    /// The environment that an interpreter starts from.
    pub fn default() -> (r: Self)
        ensures
            r@ == State::initial(),
    {
        let mut env = Environment::empty();
        let ops = Builtin::all();
        let mut i: usize = 0;
        while i < ops.len()
            invariant
                i <= ops.len(),
                ops@ == Builtin::every(),
                env@ == State::with_builtins(i as int),
            decreases ops.len() - i,
        {
            let op = ops[i];
            let value = MalObject::Primitive(
                PrimitiveFnRef { payload: PrimitiveFn { op }, meta: Box::new(MalObject::Nil) },
            );
            assert(value@ == Value::Primitive(op, Box::new(Value::Nil))) by {
                reveal_with_fuel(crate::types::value_of, 2);
            }
            env.set(MalSymbol(String::from_str(op.name())), value);
            i += 1;
        }
        env.set(
            MalSymbol(String::from_str("*host-language*")),
            MalObject::String(String::from_str("rust-dmr")),
        );
        env
    }

    /// Adds an empty frame whose parent is `parent`, and returns its handle.
    pub fn spawn_from(&mut self, parent: Handle) -> (child: Handle)
        ensures
            final(self)@ == old(self)@.spawn(parent),
            child == old(self)@.frames.len(),
    {
        let child = self.frames.len();
        let ghost before = self@;
        self.frames.push(Frame { data: Vec::new(), parent: Some(parent) });
        proof {
            assert(view_bindings(self.frames[child as int].data@) =~= Seq::empty());
            assert(self@.frames =~= before.spawn(parent).frames);
        }
        child
    }

    /// Adds a cell that holds `value`, and returns its handle.
    pub fn new_cell(&mut self, value: MalObject) -> (cell: Handle)
        ensures
            final(self)@ == old(self)@.add_cell(value@),
            cell == old(self)@.cells.len(),
    {
        let cell = self.cells.len();
        let ghost before = self@;
        self.cells.push(value);
        proof {
            assert(self@.cells =~= before.add_cell(value@).cells);
            assert(self@.frames =~= before.frames);
        }
        cell
    }

    /// What the cell `cell` holds.
    pub fn cell(&self, cell: Handle) -> (r: Option<MalObject>)
        ensures
            match r {
                Some(v) => self@.cell(cell) == Some(v@),
                None => self@.cell(cell) is None,
            },
    {
        if cell < self.cells.len() {
            Some(self.cells[cell].clone())
        } else {
            None
        }
    }

    /// Stores `value` in the cell `cell`. Nothing changes where there is no such cell.
    pub fn set_cell(&mut self, cell: Handle, value: MalObject)
        ensures
            final(self)@ == old(self)@.store(cell, value@),
    {
        if cell < self.cells.len() {
            let ghost before = self@;
            self.cells[cell] = value;
            proof {
                assert(self@.cells =~= before.store(cell, value@).cells);
                assert(self@.frames =~= before.frames);
            }
        }
    }

    /// Records a line that the program has printed.
    pub fn print_line(&mut self, line: String)
        ensures
            final(self)@ == old(self)@.print(line@),
    {
        let ghost before = self@;
        self.host.output.push(line);
        proof {
            assert(self@.host.output =~= before.print(line@).host.output);
            assert(self@.host.input =~= before.host.input);
            assert(self@.host.files =~= before.host.files);
            assert(self@.frames =~= before.frames);
        }
    }
}

/// Binds `eval` in the root frame to the bridge that evaluates a form there.
pub fn add_eval(env: &mut Environment)
    ensures
        final(env)@ == old(env)@.set(root(), "eval"@, Value::Eval(root())),
{
    let dummy = MalObject::Eval(PrimitiveEval { env: 0 });
    env.set(MalSymbol(String::from_str("eval")), dummy);
}


/// The state after the first `n` forms of the prelude, and the text of the error of the
/// form that stopped it, if one did.
pub open spec fn after_prelude(st: State, n: int) -> (State, Result<(), Seq<char>>)
    decreases n,
{
    if n <= 0 {
        (st, Ok(()))
    } else {
        let before = after_prelude(st, n - 1);
        match before.1 {
            Err(_) => before,
            Ok(_) => {
                let (after, result) = rep_line(before.0, prelude::forms()[n - 1]);
                (
                    after,
                    match result {
                        Ok(_) => Ok(()),
                        Err(text) => Err(text),
                    },
                )
            },
        }
    }
}

/// Once a form of the prelude has failed, nothing more is evaluated.
pub proof fn after_prelude_stops(st: State, n: int, m: int)
    requires
        n <= m,
        after_prelude(st, n).1 is Err,
    ensures
        after_prelude(st, m) == after_prelude(st, n),
    decreases m - n,
{
    if n < m {
        after_prelude_stops(st, n, m - 1);
    }
}

/// Evaluates the forms of the prelude in the root frame, in order, up to the first that
/// fails.
#[verifier::loop_isolation(false)]
pub fn read_prelude(env: &mut Environment) -> (r: Result<(), String>)
    ensures
        final(env)@ == after_prelude(old(env)@, prelude::forms().len() as int).0,
        match r {
            Ok(_) => after_prelude(old(env)@, prelude::forms().len() as int).1 is Ok,
            Err(text) => after_prelude(old(env)@, prelude::forms().len() as int).1 == Err::<
                (),
                Seq<char>,
            >(text@),
        },
{
    let lines = prelude::lines();
    let mut i: usize = 0;
    while i < lines.len()
        invariant
            i <= lines.len(),
            after_prelude(old(env)@, i as int) == (env@, Ok::<(), Seq<char>>(())),
        decreases lines.len() - i,
    {
        match rep(lines[i], env) {
            Ok(_) => {},
            Err(text) => {
                proof {
                    after_prelude_stops(old(env)@, i + 1, lines.len() as int);
                }
                return Err(text);
            },
        }
        i += 1;
    }
    Ok(())
}

impl Environment {
    /// Sets how many steps one evaluation may take.
    pub fn set_step_limit(&mut self, limit: usize)
        ensures
            final(self)@ == (State { step_limit: limit, ..old(self)@ }),
    {
        self.step_limit = limit;
    }

    /// Sets the host's clock, in milliseconds since the epoch.
    pub fn set_clock(&mut self, now_ms: MalInt)
        ensures
            final(self)@ == (State {
                host: HostView { clock_ms: now_ms, ..old(self)@.host },
                ..old(self)@
            }),
    {
        let ghost before = self@;
        self.host.clock_ms = now_ms;
        proof {
            assert(self@.host.output =~= before.host.output);
            assert(self@.host.input =~= before.host.input);
            assert(self@.host.files =~= before.host.files);
            assert(self@.frames =~= before.frames);
        }
    }

    /// Hands the program a file that the host has read, or why it could not read it.
    pub fn provide_file(&mut self, path: String, contents: Result<String, String>)
        ensures
            final(self)@ == (State {
                host: HostView {
                    files: old(self)@.host.files.push(
                        FileView {
                            path: path@,
                            contents: match contents {
                                Ok(text) => Ok(text@),
                                Err(why) => Err(why@),
                            },
                        },
                    ),
                    ..old(self)@.host
                },
                ..old(self)@
            }),
    {
        let ghost before = self@;
        self.host.files.push(HostFile { path, contents });
        proof {
            assert(self@.host.files =~= before.host.files.push(
                FileView {
                    path: path@,
                    contents: match contents {
                        Ok(text) => Ok(text@),
                        Err(why) => Err(why@),
                    },
                },
            ));
            assert(self@.host.output =~= before.host.output);
            assert(self@.host.input =~= before.host.input);
            assert(self@.frames =~= before.frames);
        }
    }

    /// Hands the program a line that the host has read, `None` at the end of the input.
    pub fn provide_line(&mut self, line: Option<String>)
        ensures
            final(self)@ == (State {
                host: HostView {
                    input: old(self)@.host.input.push(
                        match line {
                            Some(text) => Some(text@),
                            None => None,
                        },
                    ),
                    ..old(self)@.host
                },
                ..old(self)@
            }),
    {
        let ghost before = self@;
        self.host.input.push(line);
        proof {
            assert(self@.host.input =~= before.host.input.push(
                match line {
                    Some(text) => Some(text@),
                    None => None,
                },
            ));
            assert(self@.host.output =~= before.host.output);
            assert(self@.host.files =~= before.host.files);
            assert(self@.frames =~= before.frames);
        }
    }

    /// Takes the lines that the program has printed.
    pub fn take_output(&mut self) -> (lines: Vec<String>)
        ensures
            Seq::new(lines@.len(), |i: int| lines@[i]@) == old(self)@.host.output,
            final(self)@ == (State {
                host: HostView { output: Seq::empty(), ..old(self)@.host },
                ..old(self)@
            }),
    {
        let ghost before = self@;
        let mut lines: Vec<String> = Vec::new();
        let mut i: usize = 0;
        while i < self.host.output.len()
            invariant
                i <= self.host.output.len(),
                self@ == before,
                lines@.len() == i,
                forall|j: int| 0 <= j < i ==> (#[trigger] lines@[j])@ == before.host.output[j],
            decreases self.host.output.len() - i,
        {
            lines.push(self.host.output[i].clone());
            i += 1;
        }
        self.host.output.clear();
        proof {
            assert(Seq::new(lines@.len(), |i: int| lines@[i]@) =~= before.host.output);
            assert(self@.host.output =~= Seq::empty());
            assert(self@.host.input =~= before.host.input);
            assert(self@.host.files =~= before.host.files);
            assert(self@.frames =~= before.frames);
        }
        lines
    }
}


/// Copies of the bindings.
fn copy_bindings(data: &Vec<(MalSymbol, MalObject)>) -> (r: Vec<(MalSymbol, MalObject)>)
    ensures
        view_bindings(r@) == view_bindings(data@),
{
    let mut out: Vec<(MalSymbol, MalObject)> = Vec::new();
    let mut i: usize = 0;
    while i < data.len()
        invariant
            i <= data.len(),
            out@.len() == i,
            forall|j: int|
                0 <= j < i ==> (#[trigger] out@[j]).0@ == data@[j].0@ && out@[j].1@ == data@[j].1@,
        decreases data.len() - i,
    {
        out.push((data[i].0.clone(), data[i].1.clone()));
        i += 1;
    }
    assert(view_bindings(out@) =~= view_bindings(data@));
    out
}

impl Host {
    /// A copy of what passes between the program and its host.
    pub fn snapshot(&self) -> (r: Host)
        ensures
            r@ == self@,
    {
        let mut output: Vec<String> = Vec::new();
        let mut i: usize = 0;
        while i < self.output.len()
            invariant
                i <= self.output.len(),
                output@.len() == i,
                forall|j: int| 0 <= j < i ==> (#[trigger] output@[j])@ == self.output@[j]@,
            decreases self.output.len() - i,
        {
            output.push(self.output[i].clone());
            i += 1;
        }
        let mut input: Vec<Option<String>> = Vec::new();
        let mut i: usize = 0;
        while i < self.input.len()
            invariant
                i <= self.input.len(),
                input@.len() == i,
                forall|j: int| 0 <= j < i ==> (#[trigger] input@[j]) == self.input@[j],
            decreases self.input.len() - i,
        {
            let line = match &self.input[i] {
                Some(text) => Some(text.clone()),
                None => None,
            };
            input.push(line);
            i += 1;
        }
        let mut files: Vec<HostFile> = Vec::new();
        let mut i: usize = 0;
        while i < self.files.len()
            invariant
                i <= self.files.len(),
                files@.len() == i,
                forall|j: int| 0 <= j < i ==> (#[trigger] files@[j])@ == self.files@[j]@,
            decreases self.files.len() - i,
        {
            files.push(self.files[i].clone());
            i += 1;
        }
        let r = Host { output, input, files, clock_ms: self.clock_ms };
        proof {
            assert(r@.output =~= self@.output);
            assert(r@.input =~= self@.input);
            assert(r@.files =~= self@.files);
        }
        r
    }
}

impl Environment {
    /// A copy of the environment, to go back to.
    pub fn snapshot(&self) -> (r: Environment)
        ensures
            r@ == self@,
    {
        let mut frames: Vec<Frame> = Vec::new();
        let mut i: usize = 0;
        while i < self.frames.len()
            invariant
                i <= self.frames.len(),
                frames@.len() == i,
                forall|j: int| 0 <= j < i ==> (#[trigger] frames@[j])@ == self.frames@[j]@,
            decreases self.frames.len() - i,
        {
            frames.push(
                Frame { data: copy_bindings(&self.frames[i].data), parent: self.frames[i].parent },
            );
            i += 1;
        }
        let mut cells: Vec<MalObject> = Vec::new();
        let mut i: usize = 0;
        while i < self.cells.len()
            invariant
                i <= self.cells.len(),
                cells@.len() == i,
                forall|j: int| 0 <= j < i ==> (#[trigger] cells@[j])@ == self.cells@[j]@,
            decreases self.cells.len() - i,
        {
            cells.push(self.cells[i].clone());
            i += 1;
        }
        let r = Environment {
            frames,
            cells,
            host: self.host.snapshot(),
            step_limit: self.step_limit,
        };
        proof {
            assert(r@.frames =~= self@.frames);
            assert(r@.cells =~= self@.cells);
        }
        r
    }
}

} // verus!

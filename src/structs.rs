//! Node identity and the node model of the graph.
use vstd::prelude::*;
use vstd::string::*;

verus! {

/// Identifier of a graph node, handed out by a monotonic generator.
#[derive(PartialEq, Eq, Structural, Hash, Debug, Clone, Copy, Default)]
pub struct NId(pub usize);

impl NId {
    /// The identifier that follows this one.
    pub fn incr(&self) -> (r: NId)
        requires
            self.0 < usize::MAX,
        ensures
            r.0 == self.0 + 1,
    {
        NId(self.0 + 1)
    }

    /// Decimal text of the underlying integer.
    pub fn to_string(&self) -> (r: String)
        ensures
            r@ == decimal(self.0 as nat),
    {
        decimal_string(self.0)
    }
}

impl From<usize> for NId {
    fn from(value: usize) -> (r: NId)
        ensures
            r.0 == value,
    {
        NId(value)
    }
}

impl vstd::std_specs::convert::FromSpecImpl<usize> for NId {
    open spec fn obeys_from_spec() -> bool {
        true
    }

    open spec fn from_spec(v: usize) -> NId {
        NId(v)
    }
}

/// The character of a decimal digit.
pub open spec fn digit_char(d: nat) -> char {
    if d == 0 {
        '0'
    } else if d == 1 {
        '1'
    } else if d == 2 {
        '2'
    } else if d == 3 {
        '3'
    } else if d == 4 {
        '4'
    } else if d == 5 {
        '5'
    } else if d == 6 {
        '6'
    } else if d == 7 {
        '7'
    } else if d == 8 {
        '8'
    } else {
        '9'
    }
}

/// The decimal digits of `n`, most significant first, without leading zeros.
pub open spec fn decimal(n: nat) -> Seq<char>
    decreases n,
{
    if n < 10 {
        seq![digit_char(n)]
    } else {
        decimal(n / 10).push(digit_char(n % 10))
    }
}

fn digit_str(d: usize) -> (r: &'static str)
    requires
        d < 10,
    ensures
        r@ == seq![digit_char(d as nat)],
{
    if d == 0 {
        proof { reveal_strlit("0"); }
        "0"
    } else if d == 1 {
        proof { reveal_strlit("1"); }
        "1"
    } else if d == 2 {
        proof { reveal_strlit("2"); }
        "2"
    } else if d == 3 {
        proof { reveal_strlit("3"); }
        "3"
    } else if d == 4 {
        proof { reveal_strlit("4"); }
        "4"
    } else if d == 5 {
        proof { reveal_strlit("5"); }
        "5"
    } else if d == 6 {
        proof { reveal_strlit("6"); }
        "6"
    } else if d == 7 {
        proof { reveal_strlit("7"); }
        "7"
    } else if d == 8 {
        proof { reveal_strlit("8"); }
        "8"
    } else {
        proof { reveal_strlit("9"); }
        "9"
    }
}

/// Writes `n` in decimal.
pub fn decimal_string(n: usize) -> (r: String)
    ensures
        r@ == decimal(n as nat),
    decreases n,
{
    if n < 10 {
        String::from_str(digit_str(n))
    } else {
        let mut s = decimal_string(n / 10);
        s.append(digit_str(n % 10));
        s
    }
}

/// A node of the graph: a scope opener (file, module) or the end of a scope.
#[derive(Debug, Clone)]
pub enum Node {
    File(File),
    Module(Module),
    End(End),
}

impl Node {
    /// The node's own identifier.
    pub open spec fn id_of(&self) -> usize {
        match self {
            Node::File(f) => f.id.0,
            Node::Module(m) => m.id.0,
            Node::End(e) => e.id.0,
        }
    }

    /// Whether the node opens a scope.
    pub open spec fn is_opener(&self) -> bool {
        !(self is End)
    }

    /// The text that stands for the node in a rendering of the graph.
    pub open spec fn label(&self) -> Seq<char> {
        match self {
            Node::File(f) => "file("@ + decimal(f.id.0 as nat) + ")"@,
            Node::Module(m) => "module("@ + decimal(m.id.0 as nat) + ")"@,
            Node::End(e) => "end of "@ + decimal(e.target.0 as nat),
        }
    }

    pub fn id(&self) -> (r: NId)
        ensures
            r.0 == self.id_of(),
    {
        match self {
            Node::File(delegate) => delegate.id,
            Node::Module(delegate) => delegate.id,
            Node::End(delegate) => delegate.id,
        }
    }

    pub fn to_string(&self) -> (r: String)
        ensures
            r@ == self.label(),
    {
        match self {
            Node::File(delegate) => {
                let mut s = String::from_str("file(");
                s.append(delegate.id.to_string().as_str());
                s.append(")");
                s
            },
            Node::Module(delegate) => {
                let mut s = String::from_str("module(");
                s.append(delegate.id.to_string().as_str());
                s.append(")");
                s
            },
            Node::End(delegate) => {
                let mut s = String::from_str("end of ");
                s.append(delegate.target.to_string().as_str());
                s
            },
        }
    }
}

/// A named module scope; `ctx` is the identifier of the enclosing scope.
#[derive(Debug, Clone)]
pub struct Module {
    pub id: NId,
    pub ctx: NId,
    pub name: String,
}

impl From<Module> for Node {
    fn from(value: Module) -> (r: Node)
        ensures
            r == Node::Module(value),
    {
        Node::Module(value)
    }
}

impl vstd::std_specs::convert::FromSpecImpl<Module> for Node {
    open spec fn obeys_from_spec() -> bool {
        true
    }

    open spec fn from_spec(v: Module) -> Node {
        Node::Module(v)
    }
}

/// The root scope of one compilation unit; `name` is its source path.
#[derive(Debug, Clone)]
pub struct File {
    pub id: NId,
    pub name: String,
}

impl File {
    pub fn new(id: NId, name: String) -> (r: File)
        ensures
            r.id == id,
            r.name@ == name@,
    {
        File { id, name }
    }
}

impl From<File> for Node {
    fn from(value: File) -> (r: Node)
        ensures
            r == Node::File(value),
    {
        Node::File(value)
    }
}

impl vstd::std_specs::convert::FromSpecImpl<File> for Node {
    open spec fn obeys_from_spec() -> bool {
        true
    }

    open spec fn from_spec(v: File) -> Node {
        Node::File(v)
    }
}

/// The end of the scope whose opener is `target`.
#[derive(Debug, Clone)]
pub struct End {
    pub id: NId,
    pub target: NId,
}

impl From<End> for Node {
    fn from(value: End) -> (r: Node)
        ensures
            r == Node::End(value),
    {
        Node::End(value)
    }
}

impl vstd::std_specs::convert::FromSpecImpl<End> for Node {
    open spec fn obeys_from_spec() -> bool {
        true
    }

    open spec fn from_spec(v: End) -> Node {
        Node::End(v)
    }
}

} // verus!

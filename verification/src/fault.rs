//! A failure with everything that was said around it on the way up.
use vstd::prelude::*;
use crate::ssh;
use crate::text;

verus! {

/// The kinds of input/output failure that decide anything.
#[derive(Clone, Copy, Debug, PartialEq, Eq, Structural)]
pub enum IoKind {
    BrokenPipe,
    ConnectionReset,
    ConnectionAborted,
    NotConnected,
    UnexpectedEof,
    TimedOut,
    WouldBlock,
    Interrupted,
    PermissionDenied,
    Other,
}

/// What one layer of a failure is known to be.
#[derive(Clone, Copy, Debug, PartialEq, Eq, Structural)]
pub enum Cause {
    /// A failure of the SSH transport itself.
    Ssh(ssh::Kind),
    /// An input/output failure, with the SSH failure boxed inside it if there is one.
    Io { kind: IoKind, inner: Option<ssh::Kind> },
    /// Text alone.
    Message,
}

/// One layer of a failure: what it is, and how it reads.
#[derive(Clone, Debug)]
pub struct Layer {
    pub cause: Cause,
    pub text: String,
}

/// A failure as a chain of layers, outermost first.
#[derive(Clone, Debug)]
pub struct Fault {
    pub layers: Vec<Layer>,
}

/// The chain on one line: the layers' texts with ": " between them.
pub open spec fn rendered(layers: Seq<Layer>) -> Seq<char>
    decreases layers.len(),
{
    if layers.len() == 0 {
        Seq::empty()
    } else if layers.len() == 1 {
        layers[0].text@
    } else {
        rendered(layers.drop_last()) + seq![':', ' '] + layers.last().text@
    }
}

/// A single layer of this cause that reads like this.
pub open spec fn single_layer(error: Fault, cause: Cause, message: Seq<char>) -> bool {
    error.layers@.len() == 1 && error.layers@[0].cause == cause && error.layers@[0].text@ == message
}

/// One failure inside another that adds a line of text.
pub open spec fn wrapped(outer: Fault, message: Seq<char>, inner: Fault) -> bool {
    outer.layers@.len() == inner.layers@.len() + 1 && outer.layers@[0].cause == Cause::Message
        && outer.layers@[0].text@ == message && outer.layers@.skip(1) == inner.layers@
}

impl Fault {
    /// A failure that is text alone.
    pub fn message(message: &str) -> (r: Self)
        ensures
            single_layer(r, Cause::Message, message@),
    {
        Self::single(Cause::Message, message.to_owned())
    }

    /// A failure of the SSH transport.
    pub fn ssh(error: ssh::Error) -> (r: Self)
        ensures
            single_layer(r, Cause::Ssh(error.kind), error.message@),
    {
        Self::single(Cause::Ssh(error.kind), error.message)
    }

    /// An input/output failure.
    pub fn io(kind: IoKind, message: &str) -> (r: Self)
        ensures
            single_layer(r, Cause::Io { kind, inner: None }, message@),
    {
        Self::single(Cause::Io { kind, inner: None }, message.to_owned())
    }

    /// An input/output failure that holds an SSH failure and reads as it does.
    pub fn io_holding(error: ssh::Error) -> (r: Self)
        ensures
            single_layer(
                r,
                Cause::Io { kind: IoKind::Other, inner: Some(error.kind) },
                error.message@,
            ),
    {
        Self::single(Cause::Io { kind: IoKind::Other, inner: Some(error.kind) }, error.message)
    }

    fn single(cause: Cause, text: String) -> (r: Self)
        ensures
            r.layers@ == seq![(Layer { cause, text })],
    {
        let mut layers: Vec<Layer> = Vec::new();
        layers.push(Layer { cause, text });
        assert(layers@ =~= seq![(Layer { cause, text })]);
        Fault { layers }
    }

    /// The same failure with a line of text around it.
    pub fn context(self, message: &str) -> (r: Self)
        ensures
            wrapped(r, message@, self),
    {
        let mut layers: Vec<Layer> = self.layers;
        layers.insert(0, Layer { cause: Cause::Message, text: message.to_owned() });
        assert(layers@.skip(1) =~= self.layers@);
        Fault { layers }
    }

    /// The whole chain on one line.
    pub fn to_text(&self) -> (r: String)
        ensures
            r@ == rendered(self.layers@),
    {
        let mut out = String::new();
        for i in 0..self.layers.len()
            invariant
                out@ == rendered(self.layers@.take(i as int)),
        {
            let ghost so_far = self.layers@.take(i + 1);
            assert(so_far.drop_last() =~= self.layers@.take(i as int));
            if i > 0 {
                out.push(':');
                out.push(' ');
            }
            text::push_text(&mut out, self.layers[i].text.as_str());
            assert(out@ =~= rendered(so_far));
        }
        assert(self.layers@.take(self.layers@.len() as int) =~= self.layers@);
        out
    }
}

/// A chain reads from its outermost layer to its innermost one, with a colon and a
/// space between two of them.
pub proof fn a_chain_reads_from_the_outside(layers: Seq<Layer>, layer: Layer)
    ensures
        rendered(Seq::empty()) == Seq::<char>::empty(),
        rendered(seq![layer]) == layer.text@,
        layers.len() > 0 ==> rendered(layers.push(layer)) == rendered(layers) + seq![':', ' ']
            + layer.text@,
{
    assert(layers.push(layer).drop_last() =~= layers);
}

/// A line of text around a failure is read first and changes no cause.
pub proof fn a_line_around_a_failure_comes_first(outer: Fault, message: Seq<char>, inner: Fault)
    requires
        wrapped(outer, message, inner),
        inner.layers@.len() > 0,
    ensures
        outer.layers@[0].text@ == message,
        outer.layers@[0].cause == Cause::Message,
        forall|i: int|
            0 <= i < inner.layers@.len() ==> outer.layers@[i + 1] == #[trigger] inner.layers@[i],
        rendered(outer.layers@) == message + seq![':', ' '] + rendered(inner.layers@),
{
    assert forall|i: int| 0 <= i < inner.layers@.len() implies outer.layers@[i + 1]
        == #[trigger] inner.layers@[i] by {
        assert(outer.layers@.skip(1)[i] == inner.layers@[i]);
    }
    lemma_rendered_front(outer.layers@);
}

proof fn lemma_rendered_front(layers: Seq<Layer>)
    requires
        layers.len() > 1,
    ensures
        rendered(layers) == layers[0].text@ + seq![':', ' '] + rendered(layers.skip(1)),
    decreases layers.len(),
{
    let rest = layers.skip(1);
    assert(rest.drop_last() =~= layers.drop_last().skip(1));
    assert(rest.last() == layers.last());
    if layers.len() > 2 {
        lemma_rendered_front(layers.drop_last());
        assert(layers.drop_last()[0] == layers[0]);
    } else {
        assert(layers.drop_last()[0] == layers[0]);
        assert(rendered(rest) == rest[0].text@);
        assert(rendered(layers.drop_last()) == layers[0].text@);
    }
    assert(rendered(layers) == rendered(layers.drop_last()) + seq![':', ' ']
        + layers.last().text@);
    assert(rendered(layers) =~= layers[0].text@ + seq![':', ' '] + rendered(rest));
}

} // verus!

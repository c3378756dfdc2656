//! The graph description model: declarative, immutable value objects
//! describing one analysis pass — inputs selecting demuxed streams,
//! filters wired by stream labels, and outputs naming the annotation
//! keys to surface. `setup` validates that every referenced label
//! resolves to a declared one; executing the graph is the business of
//! the external execution engine.

use vstd::prelude::*;

use crate::decimal::Decimal;
use crate::rational::Rational;
use crate::text::{dec_str_of, numbered_label};

verus! {

/// A filter's tuning knob value.
#[derive(Clone, Debug)]
pub enum ParameterValue {
    Bool(bool),
    Int64(i64),
    Rational(Rational),
    Decimal(Decimal),
    Str(String),
}

/// A named filter parameter.
pub struct FilterParameter {
    pub name: String,
    pub value: ParameterValue,
}

/// One demuxed stream selected from a file, optionally labelled for
/// filters to reference.
pub struct Stream {
    pub index: u32,
    pub label: Option<String>,
}

/// How a filter input is fed.
#[derive(Clone, Copy, Debug, PartialEq, Eq, Structural)]
pub enum InputKind {
    Stream,
    Filter,
}

pub struct FilterInput {
    pub kind: InputKind,
    pub stream_label: String,
}

pub struct FilterOutput {
    pub stream_label: String,
}

pub struct Filter {
    pub name: String,
    pub label: Option<String>,
    pub parameters: Vec<FilterParameter>,
    pub inputs: Option<Vec<FilterInput>>,
    pub outputs: Option<Vec<FilterOutput>>,
}

/// Where a graph reads from.
pub enum Input {
    Streams { id: u32, path: String, streams: Vec<Stream> },
}

/// What an output surfaces.
#[derive(Clone, Copy, Debug, PartialEq, Eq, Structural)]
pub enum OutputKind {
    VideoMetadata,
    AudioMetadata,
    File,
}

pub struct Output {
    pub kind: Option<OutputKind>,
    pub keys: Vec<String>,
    pub stream: Option<String>,
    pub path: Option<String>,
    pub streams: Vec<Stream>,
    pub parameters: Vec<FilterParameter>,
}

/// One analysis pass: inputs, filters and outputs, in order.
pub struct Order {
    pub inputs: Vec<Input>,
    pub filters: Vec<Filter>,
    pub outputs: Vec<Output>,
}

pub open spec fn spec_input_streams(inp: Input) -> Seq<Stream> {
    match inp {
        Input::Streams { streams, .. } => streams@,
    }
}

pub open spec fn spec_filter_inputs(f: Filter) -> Seq<FilterInput> {
    match f.inputs {
        Some(v) => v@,
        None => Seq::empty(),
    }
}

pub open spec fn spec_filter_outputs(f: Filter) -> Seq<FilterOutput> {
    match f.outputs {
        Some(v) => v@,
        None => Seq::empty(),
    }
}

/// A label is declared when some input stream carries it or some filter
/// output produces it.
pub open spec fn spec_declares(o: Order, label: Seq<char>) -> bool {
    ||| exists|i: int, j: int|
        0 <= i < o.inputs@.len() && 0 <= j < spec_input_streams(o.inputs@[i]).len()
            && ((#[trigger] spec_input_streams(o.inputs@[i])[j]).label matches Some(l) && l@
            == label)
    ||| exists|i: int, j: int|
        0 <= i < o.filters@.len() && 0 <= j < spec_filter_outputs(o.filters@[i]).len()
            && (#[trigger] spec_filter_outputs(o.filters@[i])[j]).stream_label@ == label
}

/// Every filter input and every output stream reference resolves to a
/// declared label.
pub open spec fn order_valid(o: Order) -> bool {
    &&& forall|i: int, j: int|
        0 <= i < o.filters@.len() && 0 <= j < spec_filter_inputs(o.filters@[i]).len()
            ==> spec_declares(
            o,
            (#[trigger] spec_filter_inputs(o.filters@[i])[j]).stream_label@,
        )
    &&& forall|i: int|
        0 <= i < o.outputs@.len() ==> ((#[trigger] o.outputs@[i]).stream matches Some(l)
            ==> spec_declares(o, l@))
}

impl Order {
    /// Programmatic construction; nothing to parse, nothing to check
    /// until `setup`.
    pub fn new(inputs: Vec<Input>, filters: Vec<Filter>, outputs: Vec<Output>) -> (r: Order)
        ensures
            r.inputs@ == inputs@,
            r.filters@ == filters@,
            r.outputs@ == outputs@,
    {
        Order { inputs, filters, outputs }
    }

    /// Whether `label` is declared by an input stream or a filter output.
    pub fn label_declared(&self, label: &String) -> (r: bool)
        ensures
            r == spec_declares(*self, label@),
    {
        let ni = self.inputs.len();
        let mut i: usize = 0;
        while i < ni
            invariant
                i <= ni,
                ni == self.inputs@.len(),
                forall|a: int, b: int|
                    0 <= a < i && 0 <= b < spec_input_streams(self.inputs@[a]).len()
                        ==> !((#[trigger] spec_input_streams(self.inputs@[a])[b]).label matches Some(
                        l,
                    ) && l@ == label@),
            decreases ni - i,
        {
            match &self.inputs[i] {
                Input::Streams { streams, .. } => {
                    let ns = streams.len();
                    let mut j: usize = 0;
                    while j < ns
                        invariant
                            j <= ns,
                            i < ni,
                            ni == self.inputs@.len(),
                            ns == spec_input_streams(self.inputs@[i as int]).len(),
                            streams@ == spec_input_streams(self.inputs@[i as int]),
                            forall|b: int|
                                0 <= b < j ==> !((#[trigger] spec_input_streams(
                                    self.inputs@[i as int],
                                )[b]).label matches Some(l) && l@ == label@),
                        decreases ns - j,
                    {
                        match &streams[j].label {
                            Some(l) => {
                                if *l == *label {
                                    return true;
                                }
                            },
                            None => {},
                        }
                        j = j + 1;
                    }
                },
            }
            i = i + 1;
        }
        let nf = self.filters.len();
        let mut i2: usize = 0;
        while i2 < nf
            invariant
                i2 <= nf,
                nf == self.filters@.len(),
                forall|a: int, b: int|
                    0 <= a < self.inputs@.len() && 0 <= b < spec_input_streams(
                        self.inputs@[a],
                    ).len() ==> !((#[trigger] spec_input_streams(
                        self.inputs@[a],
                    )[b]).label matches Some(l) && l@ == label@),
                forall|a: int, b: int|
                    0 <= a < i2 && 0 <= b < spec_filter_outputs(self.filters@[a]).len() ==> (
                    #[trigger] spec_filter_outputs(self.filters@[a])[b]).stream_label@ != label@,
            decreases nf - i2,
        {
            match &self.filters[i2].outputs {
                Some(outs) => {
                    let no = outs.len();
                    let mut j: usize = 0;
                    while j < no
                        invariant
                            j <= no,
                            i2 < nf,
                            nf == self.filters@.len(),
                            no == spec_filter_outputs(self.filters@[i2 as int]).len(),
                            outs@ == spec_filter_outputs(self.filters@[i2 as int]),
                            forall|b: int|
                                0 <= b < j ==> (#[trigger] spec_filter_outputs(
                                    self.filters@[i2 as int],
                                )[b]).stream_label@ != label@,
                        decreases no - j,
                    {
                        if outs[j].stream_label == *label {
                            return true;
                        }
                        j = j + 1;
                    }
                },
                None => {},
            }
            i2 = i2 + 1;
        }
        false
    }

    /// Validates the graph: succeeds exactly when every referenced
    /// stream label resolves to a declared one. No side effects; the
    /// file itself is not touched.
    pub fn setup(&self) -> (r: Result<(), String>)
        ensures
            r is Ok <==> order_valid(*self),
    {
        let nf = self.filters.len();
        let mut i: usize = 0;
        while i < nf
            invariant
                i <= nf,
                nf == self.filters@.len(),
                forall|a: int, b: int|
                    0 <= a < i && 0 <= b < spec_filter_inputs(self.filters@[a]).len()
                        ==> spec_declares(
                        *self,
                        (#[trigger] spec_filter_inputs(self.filters@[a])[b]).stream_label@,
                    ),
            decreases nf - i,
        {
            match &self.filters[i].inputs {
                Some(ins) => {
                    let nj = ins.len();
                    let mut j: usize = 0;
                    while j < nj
                        invariant
                            j <= nj,
                            i < nf,
                            nf == self.filters@.len(),
                            nj == spec_filter_inputs(self.filters@[i as int]).len(),
                            ins@ == spec_filter_inputs(self.filters@[i as int]),
                            forall|b: int|
                                0 <= b < j ==> spec_declares(
                                    *self,
                                    (#[trigger] spec_filter_inputs(
                                        self.filters@[i as int],
                                    )[b]).stream_label@,
                                ),
                        decreases nj - j,
                    {
                        if !self.label_declared(&ins[j].stream_label) {
                            return Err("unresolved filter input stream label".to_owned());
                        }
                        j = j + 1;
                    }
                },
                None => {},
            }
            i = i + 1;
        }
        let no = self.outputs.len();
        let mut i2: usize = 0;
        while i2 < no
            invariant
                i2 <= no,
                no == self.outputs@.len(),
                forall|a: int, b: int|
                    0 <= a < self.filters@.len() && 0 <= b < spec_filter_inputs(
                        self.filters@[a],
                    ).len() ==> spec_declares(
                        *self,
                        (#[trigger] spec_filter_inputs(self.filters@[a])[b]).stream_label@,
                    ),
                forall|a: int|
                    0 <= a < i2 ==> ((#[trigger] self.outputs@[a]).stream matches Some(l)
                        ==> spec_declares(*self, l@)),
            decreases no - i2,
        {
            match &self.outputs[i2].stream {
                Some(l) => {
                    if !self.label_declared(l) {
                        return Err("unresolved output stream label".to_owned());
                    }
                },
                None => {},
            }
            i2 = i2 + 1;
        }
        Ok(())
    }
}

fn clone_strings(v: &Vec<String>) -> (r: Vec<String>)
    ensures
        r@.len() == v@.len(),
        forall|k: int| 0 <= k < v@.len() ==> r@[k]@ == v@[k]@,
{
    let n = v.len();
    let mut r: Vec<String> = Vec::new();
    let mut i: usize = 0;
    while i < n
        invariant
            i <= n,
            n == v@.len(),
            r@.len() == i,
            forall|k: int| 0 <= k < i ==> r@[k]@ == v@[k]@,
        decreases n - i,
    {
        r.push(v[i].clone());
        i = i + 1;
    }
    r
}

/// The shape of one element of a metadata graph, pinned in full: the
/// input selects the stream from the file under the label
/// `{input_prefix}{idx}`; the filter carries the given name, the label
/// `{filter_label_prefix}{idx}`, and is wired from that input label to
/// the output label `{output_prefix}{idx}`; the output carries the
/// given kind, surfaces exactly the given keys, references that output
/// label, and has no path, streams or parameters.
pub open spec fn graph_element_shape(
    o: Order,
    a: int,
    idx: u32,
    filename: Seq<char>,
    filter_name: Seq<char>,
    filter_label_prefix: Seq<char>,
    input_prefix: Seq<char>,
    output_prefix: Seq<char>,
    kind: OutputKind,
    keys: Seq<Seq<char>>,
) -> bool {
    let input_label = input_prefix + dec_str_of(idx as nat);
    let output_label = output_prefix + dec_str_of(idx as nat);
    &&& 0 <= a < o.inputs@.len() && a < o.filters@.len() && a < o.outputs@.len()
    &&& (o.inputs@[a] matches Input::Streams { id, path, .. } && id == idx && path@ == filename)
    &&& spec_input_streams(o.inputs@[a]).len() == 1
    &&& spec_input_streams(o.inputs@[a])[0].index == idx
    &&& (spec_input_streams(o.inputs@[a])[0].label matches Some(l) && l@ == input_label)
    &&& o.filters@[a].name@ == filter_name
    &&& (o.filters@[a].label matches Some(l) && l@ == filter_label_prefix + dec_str_of(
        idx as nat,
    ))
    &&& spec_filter_inputs(o.filters@[a]).len() == 1
    &&& spec_filter_inputs(o.filters@[a])[0].kind == InputKind::Stream
    &&& spec_filter_inputs(o.filters@[a])[0].stream_label@ == input_label
    &&& spec_filter_outputs(o.filters@[a]).len() == 1
    &&& spec_filter_outputs(o.filters@[a])[0].stream_label@ == output_label
    &&& o.outputs@[a].kind == Some(kind)
    &&& o.outputs@[a].keys@.map_values(|s: String| s@) == keys
    &&& (o.outputs@[a].stream matches Some(l) && l@ == output_label)
    &&& o.outputs@[a].path is None
    &&& o.outputs@[a].streams@.len() == 0
    &&& o.outputs@[a].parameters@.len() == 0
}

/// Builds the one-filter-per-stream metadata graph every detector uses:
/// per selected stream, a labelled input, one filter of the given name
/// wired to it, and one metadata output surfacing the given annotation
/// keys. The result always validates.
pub fn create_metadata_graph(
    filename: &str,
    indexes: &Vec<u32>,
    filter_name: &str,
    filter_label_prefix: &str,
    input_prefix: &str,
    output_prefix: &str,
    output_kind: OutputKind,
    keys: &Vec<String>,
) -> (r: Result<Order, String>)
    ensures
        r matches Ok(o) && {
            &&& o.inputs@.len() == indexes@.len()
            &&& o.filters@.len() == indexes@.len()
            &&& o.outputs@.len() == indexes@.len()
            &&& order_valid(o)
            &&& forall|a: int|
                0 <= a < indexes@.len() ==> graph_element_shape(
                    o,
                    a,
                    indexes@[a],
                    filename@,
                    filter_name@,
                    filter_label_prefix@,
                    input_prefix@,
                    output_prefix@,
                    output_kind,
                    keys@.map_values(|s: String| s@),
                )
            &&& forall|a: int|
                0 <= a < indexes@.len() ==> (#[trigger] o.filters@[a]).parameters@.len() == 0
        },
{
    let n = indexes.len();
    let mut inputs: Vec<Input> = Vec::new();
    let mut filters: Vec<Filter> = Vec::new();
    let mut outputs: Vec<Output> = Vec::new();
    let mut i: usize = 0;
    while i < n
        invariant
            i <= n,
            n == indexes@.len(),
            inputs@.len() == i,
            filters@.len() == i,
            outputs@.len() == i,
            forall|a: int|
                0 <= a < i ==> {
                    let lab = input_prefix@ + dec_str_of(indexes@[a] as nat);
                    &&& spec_input_streams(#[trigger] inputs@[a]).len() == 1
                    &&& (spec_input_streams(inputs@[a])[0].label matches Some(l) && l@ == lab)
                },
            forall|a: int|
                0 <= a < i ==> {
                    let lab = input_prefix@ + dec_str_of(indexes@[a] as nat);
                    &&& spec_filter_inputs(#[trigger] filters@[a]).len() == 1
                    &&& spec_filter_inputs(filters@[a])[0].stream_label@ == lab
                    &&& spec_filter_outputs(filters@[a]).len() == 1
                    &&& spec_filter_outputs(filters@[a])[0].stream_label@ == output_prefix@
                        + dec_str_of(indexes@[a] as nat)
                },
            forall|a: int|
                0 <= a < i ==> ((#[trigger] outputs@[a]).stream matches Some(l) && l@
                    == output_prefix@ + dec_str_of(indexes@[a] as nat)),
            forall|a: int|
                0 <= a < i ==> {
                    &&& (#[trigger] filters@[a]).name@ == filter_name@
                    &&& (filters@[a].label matches Some(l) && l@ == filter_label_prefix@
                        + dec_str_of(indexes@[a] as nat))
                    &&& filters@[a].parameters@.len() == 0
                    &&& spec_filter_inputs(filters@[a])[0].kind == InputKind::Stream
                    &&& (inputs@[a] matches Input::Streams { id, path, .. } && id == indexes@[a]
                        && path@ == filename@)
                    &&& spec_input_streams(inputs@[a])[0].index == indexes@[a]
                    &&& outputs@[a].kind == Some(output_kind)
                    &&& outputs@[a].keys@.map_values(|s: String| s@) == keys@.map_values(
                        |s: String| s@,
                    )
                    &&& outputs@[a].path is None
                    &&& outputs@[a].streams@.len() == 0
                    &&& outputs@[a].parameters@.len() == 0
                },
        decreases n - i,
    {
        let idx = indexes[i];
        let input_identifier = numbered_label(input_prefix, idx);
        let output_identifier = numbered_label(output_prefix, idx);

        let mut input_streams: Vec<Stream> = Vec::new();
        input_streams.push(Stream { index: idx, label: Some(input_identifier.clone()) });

        let mut filter_inputs: Vec<FilterInput> = Vec::new();
        filter_inputs.push(FilterInput { kind: InputKind::Stream, stream_label: input_identifier });
        let mut filter_outputs: Vec<FilterOutput> = Vec::new();
        filter_outputs.push(FilterOutput { stream_label: output_identifier.clone() });

        filters.push(
            Filter {
                name: filter_name.to_owned(),
                label: Some(numbered_label(filter_label_prefix, idx)),
                parameters: Vec::new(),
                inputs: Some(filter_inputs),
                outputs: Some(filter_outputs),
            },
        );
        inputs.push(Input::Streams { id: idx, path: filename.to_owned(), streams: input_streams });
        outputs.push(
            Output {
                kind: Some(output_kind),
                keys: clone_strings(keys),
                stream: Some(output_identifier),
                path: None,
                streams: Vec::new(),
                parameters: Vec::new(),
            },
        );
        proof {
            assert(outputs@[i as int].keys@.map_values(|s: String| s@) =~= keys@.map_values(
                |s: String| s@,
            ));
        }
        i = i + 1;
    }
    let order = Order::new(inputs, filters, outputs);
    proof {
        assert forall|a: int, b: int|
            0 <= a < order.filters@.len() && 0 <= b < spec_filter_inputs(
                order.filters@[a],
            ).len() implies spec_declares(
            order,
            (#[trigger] spec_filter_inputs(order.filters@[a])[b]).stream_label@,
        ) by {
            let lab = spec_filter_inputs(order.filters@[a])[b].stream_label@;
            assert(b == 0);
            assert(spec_input_streams(order.inputs@[a])[0].label matches Some(l) && l@ == lab);
        }
        assert forall|a: int|
            0 <= a < order.outputs@.len() implies ((#[trigger] order.outputs@[a]).stream matches Some(
            l,
        ) ==> spec_declares(order, l@)) by {
            if order.outputs@[a].stream is Some {
                let lab = order.outputs@[a].stream.unwrap()@;
                assert(spec_filter_outputs(order.filters@[a])[0].stream_label@ == lab);
            }
        }
    }
    Ok(order)
}

} // verus!

//! The compiler plugin's decisions: which items it expands, with what, and
//! what it complains about. The syntax tree itself stays outside; of an
//! item only what these decisions read is held here.

use vstd::prelude::*;
use vstd::string::*;

verus! {

/// The plugin that expands contracts and derives.
#[derive(Debug, Default)]
pub struct BuiltinDojoPlugin;

/// One segment of a path in a derive's argument.
#[derive(Clone, Debug, PartialEq, Eq)]
pub enum PathSegment {
    Simple(String),
    WithGenericArgs,
}

/// One argument of a derive attribute: a bare path, or anything else.
#[derive(Clone, Debug, PartialEq, Eq)]
pub enum DeriveArg {
    Path(Vec<PathSegment>),
    NotAPath,
}

/// One derive attribute of an item.
#[derive(Clone, Debug, PartialEq, Eq)]
pub struct DeriveAttr {
    pub args: Vec<DeriveArg>,
}

/// An item as the plugin reads it: a module with the names of its
/// attributes, an enum or a struct with its derive attributes, or any
/// other item.
#[derive(Clone, Debug, PartialEq, Eq)]
pub enum Item {
    Module(Vec<String>),
    Enum(Vec<DeriveAttr>),
    Struct(Vec<DeriveAttr>),
    Other,
}

/// What a derive expands to.
#[derive(Clone, Copy, Debug, PartialEq, Eq, Structural)]
pub enum Expansion {
    Model,
    Print,
    Introspect,
}

/// One thing to do for an item, in the order of its source.
#[derive(Clone, Copy, Debug, PartialEq, Eq, Structural)]
pub enum Step {
    /// Expand the module as a contract.
    Contract,
    /// Add the code of this derive.
    Expand(Expansion),
    /// Complain that the derive attribute at this index has no arguments.
    ExpectedArgs { attr: usize },
    /// Complain that this argument of this attribute is no path.
    ExpectedPath { attr: usize, arg: usize },
}

/// A path segment as a value.
pub enum PathSegmentView {
    Simple(Seq<char>),
    WithGenericArgs,
}

/// A derive argument as a value.
pub enum DeriveArgView {
    Path(Seq<PathSegmentView>),
    NotAPath,
}

/// An item as a value.
pub enum ItemView {
    Module(Seq<Seq<char>>),
    Enum(Seq<Seq<DeriveArgView>>),
    Struct(Seq<Seq<DeriveArgView>>),
    Other,
}

impl View for PathSegment {
    type V = PathSegmentView;

    open spec fn view(&self) -> PathSegmentView {
        match self {
            PathSegment::Simple(text) => PathSegmentView::Simple(text@),
            PathSegment::WithGenericArgs => PathSegmentView::WithGenericArgs,
        }
    }
}

impl View for DeriveArg {
    type V = DeriveArgView;

    open spec fn view(&self) -> DeriveArgView {
        match self {
            DeriveArg::Path(segments) => DeriveArgView::Path(
                segments@.map_values(|s: PathSegment| s@),
            ),
            DeriveArg::NotAPath => DeriveArgView::NotAPath,
        }
    }
}

impl View for DeriveAttr {
    type V = Seq<DeriveArgView>;

    open spec fn view(&self) -> Seq<DeriveArgView> {
        self.args@.map_values(|a: DeriveArg| a@)
    }
}

/// Derive attributes as values.
pub open spec fn attrs_view(attrs: Seq<DeriveAttr>) -> Seq<Seq<DeriveArgView>> {
    attrs.map_values(|a: DeriveAttr| a@)
}

/// Texts as values.
pub open spec fn texts_view(texts: Seq<String>) -> Seq<Seq<char>> {
    texts.map_values(|t: String| t@)
}

impl View for Item {
    type V = ItemView;

    open spec fn view(&self) -> ItemView {
        match self {
            Item::Module(attributes) => ItemView::Module(texts_view(attributes@)),
            Item::Enum(attrs) => ItemView::Enum(attrs_view(attrs@)),
            Item::Struct(attrs) => ItemView::Struct(attrs_view(attrs@)),
            Item::Other => ItemView::Other,
        }
    }
}

/// What the derive of this name expands to: on a struct a model, a
/// printer or an introspection, on an enum an introspection only, and
/// nothing for any other name.
pub open spec fn expansion_of(on_struct: bool, name: Seq<char>) -> Option<Expansion> {
    if name == "Introspect"@ {
        Some(Expansion::Introspect)
    } else if on_struct && name == "Model"@ {
        Some(Expansion::Model)
    } else if on_struct && name == "Print"@ {
        Some(Expansion::Print)
    } else {
        None
    }
}

/// What one argument of a derive attribute asks for: a complaint where it
/// is no path, an expansion where it is a path of one plain segment that
/// names one, and nothing otherwise.
pub open spec fn arg_step(on_struct: bool, arg: DeriveArgView, attr: int, index: int) -> Option<
    Step,
> {
    match arg {
        DeriveArgView::NotAPath => Some(
            Step::ExpectedPath { attr: attr as usize, arg: index as usize },
        ),
        DeriveArgView::Path(segments) => if segments.len() == 1 {
            match segments[0] {
                PathSegmentView::Simple(name) => match expansion_of(on_struct, name) {
                    Some(expansion) => Some(Step::Expand(expansion)),
                    None => None,
                },
                PathSegmentView::WithGenericArgs => None,
            }
        } else {
            None
        },
    }
}

/// What the arguments of one derive attribute ask for, in their order.
pub open spec fn args_steps(on_struct: bool, args: Seq<DeriveArgView>, attr: int) -> Seq<Step>
    decreases args.len(),
{
    if args.len() == 0 {
        Seq::empty()
    } else {
        let before = args_steps(on_struct, args.drop_last(), attr);
        match arg_step(on_struct, args.last(), attr, args.len() - 1) {
            Some(step) => before.push(step),
            None => before,
        }
    }
}

/// What one derive attribute asks for: a complaint where it has no
/// arguments, else what its arguments ask for.
pub open spec fn attr_steps(on_struct: bool, args: Seq<DeriveArgView>, attr: int) -> Seq<Step> {
    if args.len() == 0 {
        seq![Step::ExpectedArgs { attr: attr as usize }]
    } else {
        args_steps(on_struct, args, attr)
    }
}

/// What the derive attributes of an item ask for, in their order.
pub open spec fn derive_steps(on_struct: bool, attrs: Seq<Seq<DeriveArgView>>) -> Seq<Step>
    decreases attrs.len(),
{
    if attrs.len() == 0 {
        Seq::empty()
    } else {
        derive_steps(on_struct, attrs.drop_last()) + attr_steps(
            on_struct,
            attrs.last(),
            attrs.len() - 1,
        )
    }
}

/// What is to be done for an item: a module is expanded as a contract
/// where it carries the contract attribute, an enum or a struct gets what
/// its derives ask for, and any other item nothing.
pub open spec fn item_steps(item: ItemView) -> Seq<Step> {
    match item {
        ItemView::Module(attributes) => if attributes.contains("dojo::contract"@) {
            seq![Step::Contract]
        } else {
            Seq::empty()
        },
        ItemView::Enum(attrs) => derive_steps(false, attrs),
        ItemView::Struct(attrs) => derive_steps(true, attrs),
        ItemView::Other => Seq::empty(),
    }
}

/// What a step complains of, if it is a complaint.
pub open spec fn diagnostic_text(step: Step) -> Option<Seq<char>> {
    match step {
        Step::ExpectedArgs { .. } => Some("Expected args."@),
        Step::ExpectedPath { .. } => Some("Expected path."@),
        _ => None,
    }
}

/// Whether the steps add code for the item, beyond complaints.
pub open spec fn adds_code(steps: Seq<Step>) -> bool {
    exists|i: int| 0 <= i < steps.len() && !((#[trigger] steps[i]) is ExpectedArgs) && !(steps[i]
        is ExpectedPath)
}

fn text_is(text: &String, literal: &str) -> (r: bool)
    ensures
        r == (text@ == literal@),
{
    let other = String::from_str(literal);
    *text == other
}

fn expansion_for(on_struct: bool, name: &String) -> (r: Option<Expansion>)
    ensures
        r == expansion_of(on_struct, name@),
{
    if text_is(name, "Introspect") {
        Some(Expansion::Introspect)
    } else if on_struct && text_is(name, "Model") {
        Some(Expansion::Model)
    } else if on_struct && text_is(name, "Print") {
        Some(Expansion::Print)
    } else {
        None
    }
}

fn step_for_arg(on_struct: bool, arg: &DeriveArg, attr: usize, index: usize) -> (r: Option<Step>)
    ensures
        r == arg_step(on_struct, arg@, attr as int, index as int),
{
    match arg {
        DeriveArg::NotAPath => Some(Step::ExpectedPath { attr, arg: index }),
        DeriveArg::Path(segments) => {
            if segments.len() != 1 {
                return None;
            }
            match &segments[0] {
                PathSegment::Simple(name) => match expansion_for(on_struct, name) {
                    Some(expansion) => Some(Step::Expand(expansion)),
                    None => None,
                },
                PathSegment::WithGenericArgs => None,
            }
        },
    }
}

fn steps_for_derives(on_struct: bool, attrs: &Vec<DeriveAttr>) -> (steps: Vec<Step>)
    ensures
        steps@ == derive_steps(on_struct, attrs_view(attrs@)),
{
    let ghost all = attrs_view(attrs@);
    let mut steps: Vec<Step> = Vec::new();
    let mut i: usize = 0;
    proof {
        assert(all.take(0).len() == 0);
    }
    while i < attrs.len()
        invariant
            i <= attrs.len(),
            all == attrs_view(attrs@),
            steps@ == derive_steps(on_struct, all.take(i as int)),
        decreases attrs.len() - i,
    {
        let args = &attrs[i].args;
        let ghost views = attrs@[i as int]@;
        let ghost before = steps@;
        proof {
            assert(all.take(i + 1).drop_last() =~= all.take(i as int));
            assert(all.take(i + 1).last() == views);
        }
        if args.len() == 0 {
            steps.push(Step::ExpectedArgs { attr: i });
            proof {
                assert(steps@ =~= before + seq![Step::ExpectedArgs { attr: i }]);
            }
        } else {
            let mut j: usize = 0;
            proof {
                assert(views.take(0).len() == 0);
                assert(before + args_steps(on_struct, views.take(0), i as int) =~= before);
            }
            while j < args.len()
                invariant
                    j <= args.len(),
                    i < attrs.len(),
                    args == &attrs@[i as int].args,
                    views == attrs@[i as int]@,
                    steps@ == before + args_steps(on_struct, views.take(j as int), i as int),
                decreases args.len() - j,
            {
                proof {
                    assert(views.take(j + 1).drop_last() =~= views.take(j as int));
                    assert(views.take(j + 1).last() == args@[j as int]@);
                }
                let ghost so_far = args_steps(on_struct, views.take(j as int), i as int);
                match step_for_arg(on_struct, &args[j], i, j) {
                    Some(step) => {
                        steps.push(step);
                        proof {
                            assert(steps@ =~= before + so_far.push(step));
                        }
                    },
                    None => {},
                }
                j += 1;
            }
            proof {
                assert(views.take(j as int) =~= views);
            }
        }
        i += 1;
    }
    proof {
        assert(all.take(i as int) =~= all);
    }
    steps
}

fn has_text(texts: &Vec<String>, literal: &str) -> (r: bool)
    ensures
        r == texts_view(texts@).contains(literal@),
{
    let mut i: usize = 0;
    while i < texts.len()
        invariant
            i <= texts.len(),
            forall|j: int| 0 <= j < i ==> texts_view(texts@)[j] != literal@,
        decreases texts.len() - i,
    {
        if text_is(&texts[i], literal) {
            assert(texts_view(texts@)[i as int] == literal@);
            return true;
        }
        i += 1;
    }
    false
}

impl BuiltinDojoPlugin {
    /// What is to be done for an item, in the order of its source.
    pub fn generate_code(&self, item: &Item) -> (steps: Vec<Step>)
        ensures
            steps@ == item_steps(item@),
    {
        match item {
            Item::Module(attributes) => self.handle_mod(attributes),
            Item::Enum(attrs) => steps_for_derives(false, attrs),
            Item::Struct(attrs) => steps_for_derives(true, attrs),
            Item::Other => Vec::new(),
        }
    }

    /// What is to be done for a module with these attributes.
    pub fn handle_mod(&self, attributes: &Vec<String>) -> (steps: Vec<Step>)
        ensures
            steps@ == item_steps(ItemView::Module(texts_view(attributes@))),
    {
        let mut steps: Vec<Step> = Vec::new();
        if has_text(attributes, "dojo::contract") {
            steps.push(Step::Contract);
            proof {
                assert(steps@ =~= seq![Step::Contract]);
            }
        }
        steps
    }

    /// The attributes that the plugin declares: that of a contract, and
    /// that of a key member.
    pub fn declared_attributes(&self) -> (names: Vec<String>)
        ensures
            texts_view(names@) == seq!["dojo::contract"@, "key"@],
    {
        let mut names: Vec<String> = Vec::new();
        names.push(String::from_str("dojo::contract"));
        names.push(String::from_str("key"));
        proof {
            assert(texts_view(names@) =~= seq!["dojo::contract"@, "key"@]);
        }
        names
    }
}

/// What a step complains of, if it is a complaint.
pub fn diagnostic(step: &Step) -> (r: Option<String>)
    ensures
        match r {
            Some(text) => diagnostic_text(*step) == Some(text@),
            None => diagnostic_text(*step) is None,
        },
{
    match step {
        Step::ExpectedArgs { .. } => Some(String::from_str("Expected args.")),
        Step::ExpectedPath { .. } => Some(String::from_str("Expected path.")),
        _ => None,
    }
}

/// Whether the steps add code for the item, beyond complaints.
pub fn steps_add_code(steps: &Vec<Step>) -> (r: bool)
    ensures
        r == adds_code(steps@),
{
    let mut i: usize = 0;
    while i < steps.len()
        invariant
            i <= steps.len(),
            forall|j: int|
                0 <= j < i ==> ((#[trigger] steps@[j]) is ExpectedArgs || steps@[j]
                    is ExpectedPath),
        decreases steps.len() - i,
    {
        match steps[i] {
            Step::ExpectedArgs { .. } => {},
            Step::ExpectedPath { .. } => {},
            _ => {
                return true;
            },
        }
        i += 1;
    }
    false
}

} // verus!

//! From markup to a typed schema: locating the documentation tables,
//! extracting their rows, classifying each table as a data entity or a
//! callable operation, and inferring a structured type from each field's
//! raw type text.

use crate::dom::parse_markup;
use crate::dom::parsed_dom;
use crate::dom::visible_text;
use crate::dom::DomNode;
use crate::strutil::has_prefix;
use crate::strutil::is_blank;
use crate::strutil::lemma_trim_len;
use crate::strutil::string_eq_str;
use crate::strutil::trim_spec;
use crate::strutil::trimmed;
use vstd::prelude::*;
use vstd::string::StrSliceExecFns;
use vstd::string::StringExecFns;

verus! {

/// One row of a documentation table: a named, typed field or parameter,
/// with its prose description and whether a value for it is required.
#[derive(Debug, PartialEq)]
pub struct Param {
    pub name: String,
    pub param_type: String,
    pub description: String,
    pub required: bool,
}

/// The mathematical value of a `Param`.
pub struct ParamView {
    pub name: Seq<char>,
    pub param_type: Seq<char>,
    pub description: Seq<char>,
    pub required: bool,
}

impl DeepView for Param {
    type V = ParamView;

    open spec fn deep_view(&self) -> ParamView {
        self.view()
    }
}

impl View for Param {
    type V = ParamView;

    open spec fn view(&self) -> ParamView {
        ParamView {
            name: self.name@,
            param_type: self.param_type@,
            description: self.description@,
            required: self.required,
        }
    }
}

/// The shape a raw type text resolves to: a single named type, or an
/// enumerated alternative of several named types.
#[derive(Debug, PartialEq)]
pub enum RustType {
    Simple(String),
    Enum(Vec<String>),
}

/// The mathematical value of a `RustType`.
pub enum RustTypeView {
    Simple(Seq<char>),
    Enum(Seq<Seq<char>>),
}

impl View for RustType {
    type V = RustTypeView;

    open spec fn view(&self) -> RustTypeView {
        match self {
            RustType::Simple(s) => RustTypeView::Simple(s@),
            RustType::Enum(v) => RustTypeView::Enum(v.deep_view()),
        }
    }
}

/// The inferred structural shape of one field's type: its base shape, and
/// whether the field holds an array of it and whether it is optional.
#[derive(Debug, PartialEq)]
pub struct ParsedType {
    pub array: bool,
    pub option: bool,
    pub rust_type: RustType,
}

/// The mathematical value of a `ParsedType`.
pub struct ParsedTypeView {
    pub array: bool,
    pub option: bool,
    pub rust_type: RustTypeView,
}

impl View for ParsedType {
    type V = ParsedTypeView;

    open spec fn view(&self) -> ParsedTypeView {
        ParsedTypeView { array: self.array, option: self.option, rust_type: self.rust_type@ }
    }
}

/// A documented callable operation: its parameters in document order.
#[derive(Debug)]
pub struct Function {
    pub params: Vec<Param>,
    pub description: String,
    pub name: String,
}

/// The mathematical value of a `Function`.
pub struct FunctionView {
    pub params: Seq<ParamView>,
    pub description: Seq<char>,
    pub name: Seq<char>,
}

impl DeepView for Function {
    type V = FunctionView;

    open spec fn deep_view(&self) -> FunctionView {
        self.view()
    }
}

impl View for Function {
    type V = FunctionView;

    open spec fn view(&self) -> FunctionView {
        FunctionView {
            params: self.params.deep_view(),
            description: self.description@,
            name: self.name@,
        }
    }
}

/// A documented data entity: its fields in document order.
#[derive(Debug)]
pub struct Entity {
    pub fields: Vec<Param>,
    pub description: String,
    pub name: String,
}

/// The mathematical value of an `Entity`.
pub struct EntityView {
    pub fields: Seq<ParamView>,
    pub description: Seq<char>,
    pub name: Seq<char>,
}

impl DeepView for Entity {
    type V = EntityView;

    open spec fn deep_view(&self) -> EntityView {
        self.view()
    }
}

impl View for Entity {
    type V = EntityView;

    open spec fn view(&self) -> EntityView {
        EntityView {
            fields: self.fields.deep_view(),
            description: self.description@,
            name: self.name@,
        }
    }
}

/// The complete extracted schema of one documentation page.
#[derive(Debug)]
pub struct ApiStructure {
    pub functions: Vec<Function>,
    pub entities: Vec<Entity>,
}

/// The mathematical value of an `ApiStructure`.
pub struct ApiStructureView {
    pub functions: Seq<FunctionView>,
    pub entities: Seq<EntityView>,
}

impl View for ApiStructure {
    type V = ApiStructureView;

    open spec fn view(&self) -> ApiStructureView {
        ApiStructureView {
            functions: self.functions.deep_view(),
            entities: self.entities.deep_view(),
        }
    }
}

/// A malformed page, on which no partial schema is returned.
#[derive(Debug, PartialEq, Eq, Structural, Clone, Copy)]
pub enum StructuralError {
    /// A documentation table has no heading among the siblings before it.
    MissingHeading,
    /// A documentation table has no body rows.
    EmptyTable,
    /// The rows of one table do not all have the same column count.
    UnevenColumns,
    /// A uniform column count other than three or four.
    UnsupportedColumns,
}

/// Whether a node is an element with the given tag.
pub open spec fn spec_is_tag(n: DomNode, t: Seq<char>) -> bool {
    n matches DomNode::Element { tag, .. } && tag@ == t
}

/// The children of an element node, or nothing for a text node.
pub open spec fn spec_children(n: DomNode) -> Seq<DomNode> {
    match n {
        DomNode::Element { children, .. } => children@,
        DomNode::Text { .. } => Seq::empty(),
    }
}

/// The visible texts of the `td` elements among the given nodes and their
/// descendants, in document order.
pub open spec fn cells_in(cs: Seq<DomNode>) -> Seq<Seq<char>>
    decreases cs,
{
    if cs.len() == 0 {
        Seq::empty()
    } else {
        cells_in(cs.drop_last()) + (if spec_is_tag(cs.last(), "td"@) {
            seq![visible_text(cs.last())]
        } else {
            Seq::empty()
        }) + (match cs.last() {
            DomNode::Element { children, .. } => cells_in(children@),
            DomNode::Text { .. } => Seq::empty(),
        })
    }
}

/// The cell texts of one table row: the `td` elements beneath the row.
pub open spec fn spec_row_cells(n: DomNode) -> Seq<Seq<char>> {
    cells_in(spec_children(n))
}

/// The rows read from the `tr` elements among the given nodes and their
/// descendants, in document order.
pub open spec fn rows_in(cs: Seq<DomNode>) -> Seq<Seq<Seq<char>>>
    decreases cs,
{
    if cs.len() == 0 {
        Seq::empty()
    } else {
        rows_in(cs.drop_last()) + (if spec_is_tag(cs.last(), "tr"@) {
            seq![spec_row_cells(cs.last())]
        } else {
            Seq::empty()
        }) + (match cs.last() {
            DomNode::Element { children, .. } => rows_in(children@),
            DomNode::Text { .. } => Seq::empty(),
        })
    }
}

/// The rows of the `tbody` elements among the given nodes and their
/// descendants, in document order.
pub open spec fn tbody_rows_in(cs: Seq<DomNode>) -> Seq<Seq<Seq<char>>>
    decreases cs,
{
    if cs.len() == 0 {
        Seq::empty()
    } else {
        tbody_rows_in(cs.drop_last()) + (if spec_is_tag(cs.last(), "tbody"@) {
            rows_in(spec_children(cs.last()))
        } else {
            Seq::empty()
        }) + (match cs.last() {
            DomNode::Element { children, .. } => tbody_rows_in(children@),
            DomNode::Text { .. } => Seq::empty(),
        })
    }
}

/// The row matrix of one table element: the cell texts of every row of
/// every table body beneath it, rows and cells in document order.
pub open spec fn spec_table_rows(t: DomNode) -> Seq<Seq<Seq<char>>> {
    tbody_rows_in(spec_children(t))
}

/// Whether `cls` stands in `attr` at position `i` as a whole
/// blank-separated token.
pub open spec fn class_token_at(attr: Seq<char>, cls: Seq<char>, i: int) -> bool {
    &&& 0 <= i
    &&& i + cls.len() <= attr.len()
    &&& attr.subrange(i, i + cls.len()) == cls
    &&& (i == 0 || is_blank(attr[i - 1]))
    &&& (i + cls.len() == attr.len() || is_blank(attr[i + cls.len()]))
}

/// Whether a `class` attribute holds `cls` as one of its blank-separated
/// tokens.
pub open spec fn spec_has_class(attr: Seq<char>, cls: Seq<char>) -> bool {
    exists|i: int| class_token_at(attr, cls, i)
}

/// Whether a node is an element marked with the `table` class: one
/// documentation table.
pub open spec fn spec_is_table(n: DomNode) -> bool {
    n matches DomNode::Element { class_attr, .. } && spec_has_class(class_attr@, "table"@)
}

/// Whether a node is a heading element, which names the table that
/// follows it.
pub open spec fn spec_is_heading(n: DomNode) -> bool {
    spec_is_tag(n, "h4"@)
}

/// The position of the nearest heading element before position `i`, if
/// any.
pub open spec fn spec_heading_index(cs: Seq<DomNode>, i: int) -> Option<int>
    decreases i,
{
    if i <= 0 {
        None
    } else if spec_is_heading(cs[i - 1]) {
        Some(i - 1)
    } else {
        spec_heading_index(cs, i - 1)
    }
}

/// The concatenated visible text of the siblings strictly between
/// positions `j` and `i`, in document order.
pub open spec fn spec_description(cs: Seq<DomNode>, j: int, i: int) -> Seq<char>
    decreases i - j,
{
    if i - j <= 1 {
        Seq::empty()
    } else {
        spec_description(cs, j, i - 1) + visible_text(cs[i - 1])
    }
}

/// One located documentation table: the text of its heading, the prose
/// between the heading and the table, and its row matrix.
#[derive(Debug)]
pub struct LocatedTable {
    pub name: String,
    pub description: String,
    pub rows: Vec<Vec<String>>,
}

/// The mathematical value of a `LocatedTable`.
pub struct TableView {
    pub name: Seq<char>,
    pub description: Seq<char>,
    pub rows: Seq<Seq<Seq<char>>>,
}

impl DeepView for LocatedTable {
    type V = TableView;

    open spec fn deep_view(&self) -> TableView {
        self.view()
    }
}

impl View for LocatedTable {
    type V = TableView;

    open spec fn view(&self) -> TableView {
        TableView {
            name: self.name@,
            description: self.description@,
            rows: self.rows.deep_view(),
        }
    }
}

/// The triple read off for a table at position `i` whose heading stands at
/// position `j` of the same sibling sequence.
pub open spec fn spec_table_at(cs: Seq<DomNode>, i: int, j: int) -> TableView {
    TableView {
        name: visible_text(cs[j]),
        description: spec_description(cs, j, i),
        rows: spec_table_rows(cs[i]),
    }
}

/// The documentation tables among the first `i` of the given sibling
/// nodes and their descendants, in document order; or the first structural
/// failure, a table with no heading before it.
pub open spec fn locate_upto(cs: Seq<DomNode>, i: int) -> Result<
    Seq<TableView>,
    StructuralError,
>
    decreases cs, i,
        when i <= cs.len()
{
    if i <= 0 {
        Ok(Seq::empty())
    } else {
        match locate_upto(cs, i - 1) {
            Err(e) => Err(e),
            Ok(before) => {
                let own: Result<Seq<TableView>, StructuralError> = if spec_is_table(cs[i - 1]) {
                    match spec_heading_index(cs, i - 1) {
                        None => Err(StructuralError::MissingHeading),
                        Some(j) => Ok(seq![spec_table_at(cs, i - 1, j)]),
                    }
                } else {
                    Ok(Seq::empty())
                };
                match own {
                    Err(e) => Err(e),
                    Ok(own_tables) => {
                        let inside: Result<Seq<TableView>, StructuralError> = match cs[i - 1] {
                            DomNode::Element { children, .. } => locate_upto(
                                children@,
                                children@.len() as int,
                            ),
                            DomNode::Text { .. } => Ok(Seq::empty()),
                        };
                        match inside {
                            Err(e) => Err(e),
                            Ok(inner) => Ok(before + own_tables + inner),
                        }
                    },
                }
            },
        }
    }
}

/// The documentation tables found anywhere beneath the given sibling
/// nodes, or the first structural failure.
pub open spec fn locate_in(cs: Seq<DomNode>) -> Result<Seq<TableView>, StructuralError> {
    locate_upto(cs, cs.len() as int)
}

/// Appends the visible text of every `td` beneath the given nodes to `out`.
#[verifier::loop_isolation(false)]
fn collect_cells(cs: &Vec<DomNode>, out: &mut Vec<String>)
    ensures
        final (out).deep_view() == old(out).deep_view() + cells_in(cs@),
    decreases cs@,
{
    let n = cs.len();
    let ghost start = out.deep_view();
    for i in 0..n
        invariant
            out.deep_view() == start + cells_in(cs@.take(i as int)),
        decreases n - i,
    {
        let child = &cs[i];
        if child.is_element_with_tag("td") {
            let text = child.extract_visible_text();
            let ghost before = out.deep_view();
            out.push(text);
            proof {
                assert(out.deep_view() =~= before + seq![text@]);
            }
        }
        match child {
            DomNode::Element { children, .. } => {
                collect_cells(children, out);
            },
            DomNode::Text { .. } => {},
        }
        proof {
            assert(cs@.take(i + 1 as int).drop_last() =~= cs@.take(i as int));
            assert(cs@.take(i + 1 as int).last() == cs@[i as int]);
        }
    }
    proof {
        assert(cs@.take(n as int) =~= cs@);
    }
}

/// Appends one row for every `tr` beneath the given nodes to `out`.
#[verifier::loop_isolation(false)]
fn collect_rows(cs: &Vec<DomNode>, out: &mut Vec<Vec<String>>)
    ensures
        final (out).deep_view() == old(out).deep_view() + rows_in(cs@),
    decreases cs@,
{
    let n = cs.len();
    let ghost start = out.deep_view();
    for i in 0..n
        invariant
            out.deep_view() == start + rows_in(cs@.take(i as int)),
        decreases n - i,
    {
        let child = &cs[i];
        if child.is_element_with_tag("tr") {
            let mut row: Vec<String> = Vec::new();
            match child {
                DomNode::Element { children, .. } => {
                    collect_cells(children, &mut row);
                },
                DomNode::Text { .. } => {},
            }
            proof {
                assert(row.deep_view() =~= spec_row_cells(cs@[i as int]));
            }
            let ghost before = out.deep_view();
            let ghost row_view = row.deep_view();
            out.push(row);
            proof {
                assert(out.deep_view() =~= before + seq![row_view]);
            }
        }
        match child {
            DomNode::Element { children, .. } => {
                collect_rows(children, out);
            },
            DomNode::Text { .. } => {},
        }
        proof {
            assert(cs@.take(i + 1 as int).drop_last() =~= cs@.take(i as int));
            assert(cs@.take(i + 1 as int).last() == cs@[i as int]);
        }
    }
    proof {
        assert(cs@.take(n as int) =~= cs@);
    }
}

/// Appends the rows of every `tbody` beneath the given nodes to `out`.
#[verifier::loop_isolation(false)]
fn collect_tbody_rows(cs: &Vec<DomNode>, out: &mut Vec<Vec<String>>)
    ensures
        final (out).deep_view() == old(out).deep_view() + tbody_rows_in(cs@),
    decreases cs@,
{
    let n = cs.len();
    let ghost start = out.deep_view();
    for i in 0..n
        invariant
            out.deep_view() == start + tbody_rows_in(cs@.take(i as int)),
        decreases n - i,
    {
        let child = &cs[i];
        match child {
            DomNode::Element { children, .. } => {
                if child.is_element_with_tag("tbody") {
                    collect_rows(children, out);
                }
                collect_tbody_rows(children, out);
            },
            DomNode::Text { .. } => {},
        }
        proof {
            assert(cs@.take(i + 1 as int).drop_last() =~= cs@.take(i as int));
            assert(cs@.take(i + 1 as int).last() == cs@[i as int]);
        }
    }
    proof {
        assert(cs@.take(n as int) =~= cs@);
    }
}

/// Whether `p` stands in `s` at character position `i`.
fn matches_at(s: &str, p: &str, i: usize) -> (b: bool)
    requires
        i + p@.len() <= s@.len(),
    ensures
        b == (s@.subrange(i as int, i + p@.len()) == p@),
{
    let pn = p.unicode_len();
    let sn = s.unicode_len();
    for k in 0..pn
        invariant
            pn == p@.len(),
            sn == s@.len(),
            i + pn <= sn,
            forall|t: int| 0 <= t < k ==> s@[i + t] == p@[t],
        decreases pn - k,
    {
        if s.get_char(i + k) != p.get_char(k) {
            proof {
                assert(s@.subrange(i as int, i + p@.len())[k as int] == s@[i + k]);
            }
            return false;
        }
    }
    proof {
        assert(s@.subrange(i as int, i + p@.len()) =~= p@);
    }
    true
}

/// Whether a `class` attribute holds `cls` as one of its blank-separated
/// tokens.
fn has_class(attr: &str, cls: &str) -> (b: bool)
    requires
        cls@.len() >= 1,
    ensures
        b == spec_has_class(attr@, cls@),
{
    let an = attr.unicode_len();
    let cn = cls.unicode_len();
    if cn > an {
        proof {
            assert(forall|j: int| !class_token_at(attr@, cls@, j));
        }
        return false;
    }
    let last = an - cn;
    let mut i: usize = 0;
    while i <= last
        invariant
            an == attr@.len(),
            cn == cls@.len(),
            1 <= cn <= an,
            last == an - cn,
            i <= last + 1,
            forall|j: int| 0 <= j < i ==> !class_token_at(attr@, cls@, j),
        decreases last + 1 - i,
    {
        if matches_at(attr, cls, i) {
            let pre_ok = if i == 0 {
                true
            } else {
                crate::strutil::is_blank_char(attr.get_char(i - 1))
            };
            let post_ok = if i + cn == an {
                true
            } else {
                crate::strutil::is_blank_char(attr.get_char(i + cn))
            };
            if pre_ok && post_ok {
                proof {
                    assert(class_token_at(attr@, cls@, i as int));
                }
                return true;
            }
        }
        proof {
            assert(!class_token_at(attr@, cls@, i as int));
        }
        i = i + 1;
    }
    proof {
        assert(forall|j: int| class_token_at(attr@, cls@, j) ==> 0 <= j <= last as int);
    }
    false
}

impl DomNode {
    /// Whether this node is an element marked with the `table` class.
    pub fn is_table_node(&self) -> (b: bool)
        ensures
            b == spec_is_table(*self),
    {
        proof {
            reveal_strlit("table");
        }
        match self {
            DomNode::Element { class_attr, .. } => has_class(class_attr.as_str(), "table"),
            DomNode::Text { .. } => false,
        }
    }
}

/// A found heading stands strictly before the table and is a heading
/// element.
proof fn lemma_heading_index_bounds(cs: Seq<DomNode>, i: int)
    requires
        spec_heading_index(cs, i) is Some,
    ensures
        0 <= spec_heading_index(cs, i)->0 < i,
        spec_is_heading(cs[spec_heading_index(cs, i)->0]),
    decreases i,
{
    if i <= 0 {
    } else if spec_is_heading(cs[i - 1]) {
    } else {
        lemma_heading_index_bounds(cs, i - 1);
    }
}

/// Once locating has failed on a prefix of the siblings, the same failure
/// stands for every longer prefix.
proof fn lemma_locate_err_persists(cs: Seq<DomNode>, i: int, m: int)
    requires
        locate_upto(cs, i) is Err,
        i <= m <= cs.len(),
    ensures
        locate_upto(cs, m) == locate_upto(cs, i),
    decreases m - i,
{
    if i < m {
        lemma_locate_err_persists(cs, i, m - 1);
    }
}

/// Walks backward from position `i` to the nearest heading element, if
/// one stands before the start of the siblings.
#[verifier::loop_isolation(false)]
fn find_heading(cs: &Vec<DomNode>, i: usize) -> (r: Option<usize>)
    requires
        i <= cs@.len(),
    ensures
        match r {
            Some(j) => spec_heading_index(cs@, i as int) == Some(j as int),
            None => spec_heading_index(cs@, i as int) is None,
        },
{
    let mut k = i;
    while k > 0
        invariant
            k <= i,
            spec_heading_index(cs@, i as int) == spec_heading_index(cs@, k as int),
        decreases k,
    {
        if cs[k - 1].is_element_with_tag("h4") {
            return Some(k - 1);
        }
        k = k - 1;
    }
    None
}

/// Concatenates the visible text of the siblings strictly between
/// positions `j` and `i`, in document order.
fn build_description(cs: &Vec<DomNode>, j: usize, i: usize) -> (r: String)
    requires
        j < i <= cs@.len(),
    ensures
        r@ == spec_description(cs@, j as int, i as int),
{
    let mut out = String::new();
    let mut k = j + 1;
    while k < i
        invariant
            j + 1 <= k <= i <= cs@.len(),
            out@ == spec_description(cs@, j as int, k as int),
        decreases i - k,
    {
        cs[k].append_visible_text(&mut out);
        k = k + 1;
    }
    out
}

/// Appends every documentation table found among the given sibling nodes
/// and their descendants to `out`, in document order, or reports the
/// first table that has no heading before it.
#[verifier::loop_isolation(false)]
fn locate_tables_in(cs: &Vec<DomNode>, out: &mut Vec<LocatedTable>) -> (r: Result<
    (),
    StructuralError,
>)
    ensures
        r matches Ok(_) ==> locate_in(cs@) matches Ok(ts) && final (out).deep_view() == old(
            out,
        ).deep_view() + ts,
        r matches Err(e) ==> locate_in(cs@) == Result::<Seq<TableView>, StructuralError>::Err(e),
    decreases cs@,
{
    let n = cs.len();
    let ghost start = out.deep_view();
    for i in 0..n
        invariant
            locate_upto(cs@, i as int) matches Ok(ts) && out.deep_view() == start + ts,
        decreases n - i,
    {
        let ghost ts_before = locate_upto(cs@, i as int)->Ok_0;
        let ghost mut own_tables = Seq::<TableView>::empty();
        let child = &cs[i];
        if child.is_table_node() {
            match find_heading(cs, i) {
                None => {
                    proof {
                        assert(locate_upto(cs@, i + 1) == Result::<
                            Seq<TableView>,
                            StructuralError,
                        >::Err(StructuralError::MissingHeading));
                        lemma_locate_err_persists(cs@, i + 1, n as int);
                    }
                    return Err(StructuralError::MissingHeading);
                },
                Some(j) => {
                    proof {
                        lemma_heading_index_bounds(cs@, i as int);
                    }
                    let name = cs[j].extract_visible_text();
                    let description = build_description(cs, j, i);
                    let mut rows: Vec<Vec<String>> = Vec::new();
                    match child {
                        DomNode::Element { children, .. } => {
                            collect_tbody_rows(children, &mut rows);
                        },
                        DomNode::Text { .. } => {},
                    }
                    proof {
                        assert(rows.deep_view() =~= spec_table_rows(cs@[i as int]));
                    }
                    let ghost before = out.deep_view();
                    let ghost table_view = TableView {
                        name: name@,
                        description: description@,
                        rows: rows.deep_view(),
                    };
                    out.push(LocatedTable { name, description, rows });
                    proof {
                        assert(out.deep_view() =~= before + seq![table_view]);
                        assert(table_view == spec_table_at(cs@, i as int, j as int));
                        own_tables = seq![table_view];
                    }
                },
            }
        }
        match child {
            DomNode::Element { children, .. } => {
                let ghost out_mid = out.deep_view();
                let inner = locate_tables_in(children, out);
                if let Err(e) = inner {
                    proof {
                        assert(locate_upto(cs@, i + 1) == Result::<
                            Seq<TableView>,
                            StructuralError,
                        >::Err(e));
                        lemma_locate_err_persists(cs@, i + 1, n as int);
                    }
                    return Err(e);
                }
                proof {
                    let inner_ts = locate_in(children@)->Ok_0;
                    assert(locate_upto(cs@, i + 1) == Result::<
                        Seq<TableView>,
                        StructuralError,
                    >::Ok(ts_before + own_tables + inner_ts));
                    assert(out.deep_view() =~= start + (ts_before + own_tables + inner_ts));
                }
            },
            DomNode::Text { .. } => {
                proof {
                    assert(locate_upto(cs@, i + 1) == Result::<
                        Seq<TableView>,
                        StructuralError,
                    >::Ok(ts_before + own_tables + Seq::<TableView>::empty()));
                    assert(out.deep_view() =~= start + (ts_before + own_tables + Seq::<
                        TableView,
                    >::empty()));
                }
            },
        }
    }
    Ok(())
}

/// The field read from one row of an entity table: name, raw type and
/// description; the field is required unless its description text begins
/// with the marker "Optional".
pub open spec fn spec_entity_param(row: Seq<Seq<char>>) -> ParamView {
    ParamView {
        name: row[0],
        param_type: row[1],
        description: row[2],
        required: !"Optional"@.is_prefix_of(row[2]),
    }
}

/// The parameter read from one row of an operation table: name, raw type,
/// requirement flag and description; the parameter is required exactly
/// when the flag column reads "Yes".
pub open spec fn spec_function_param(row: Seq<Seq<char>>) -> ParamView {
    ParamView {
        name: row[0],
        param_type: row[1],
        description: row[3],
        required: row[2] == "Yes"@,
    }
}

/// Whether every row has exactly `c` columns.
pub open spec fn spec_uniform_cols(rows: Seq<Seq<Seq<char>>>, c: int) -> bool {
    forall|k: int| 0 <= k < rows.len() ==> (#[trigger] rows[k]).len() == c
}

/// A classified table: a data entity or a callable operation.
pub enum TableKindView {
    EntityKind(EntityView),
    FunctionKind(FunctionView),
}

/// Whether a located table describes a data entity: a non-empty table
/// whose first row has exactly three columns.
pub open spec fn spec_is_entity_table(t: TableView) -> bool {
    t.rows.len() > 0 && t.rows[0].len() == 3
}

/// Whether a located table describes an operation: a non-empty table
/// whose first row has exactly four columns.
pub open spec fn spec_is_function_table(t: TableView) -> bool {
    t.rows.len() > 0 && t.rows[0].len() == 4
}

/// The entity a three-column table describes.
pub open spec fn spec_entity_of_table(t: TableView) -> EntityView {
    EntityView {
        fields: t.rows.map_values(|r: Seq<Seq<char>>| spec_entity_param(r)),
        description: t.description,
        name: t.name,
    }
}

/// The operation a four-column table describes.
pub open spec fn spec_function_of_table(t: TableView) -> FunctionView {
    FunctionView {
        params: t.rows.map_values(|r: Seq<Seq<char>>| spec_function_param(r)),
        description: t.description,
        name: t.name,
    }
}

/// Classifies one located table by its column count: three columns make a
/// data entity, four an operation; an empty table, uneven rows or any
/// other count are structural failures.
pub open spec fn spec_classify(t: TableView) -> Result<TableKindView, StructuralError> {
    if t.rows.len() == 0 {
        Err(StructuralError::EmptyTable)
    } else if !spec_uniform_cols(t.rows, t.rows[0].len() as int) {
        Err(StructuralError::UnevenColumns)
    } else if t.rows[0].len() == 3 {
        Ok(TableKindView::EntityKind(spec_entity_of_table(t)))
    } else if t.rows[0].len() == 4 {
        Ok(TableKindView::FunctionKind(spec_function_of_table(t)))
    } else {
        Err(StructuralError::UnsupportedColumns)
    }
}

/// The schema built from the first `i` located tables, entities and
/// operations each in document order; or the first classification
/// failure.
pub open spec fn spec_structure_upto(ts: Seq<TableView>, i: int) -> Result<
    ApiStructureView,
    StructuralError,
>
    decreases i,
{
    if i <= 0 {
        Ok(ApiStructureView { functions: Seq::empty(), entities: Seq::empty() })
    } else {
        match spec_structure_upto(ts, i - 1) {
            Err(e) => Err(e),
            Ok(acc) => match spec_classify(ts[i - 1]) {
                Err(e) => Err(e),
                Ok(TableKindView::EntityKind(en)) => Ok(
                    ApiStructureView { functions: acc.functions, entities: acc.entities.push(en) },
                ),
                Ok(TableKindView::FunctionKind(f)) => Ok(
                    ApiStructureView { functions: acc.functions.push(f), entities: acc.entities },
                ),
            },
        }
    }
}

/// The schema built from all located tables, or the first classification
/// failure.
pub open spec fn spec_build_structure(ts: Seq<TableView>) -> Result<
    ApiStructureView,
    StructuralError,
> {
    spec_structure_upto(ts, ts.len() as int)
}

/// Once classification has failed on a prefix of the tables, the same
/// failure stands for every longer prefix.
proof fn lemma_structure_err_persists(ts: Seq<TableView>, i: int, m: int)
    requires
        spec_structure_upto(ts, i) is Err,
        i <= m,
    ensures
        spec_structure_upto(ts, m) == spec_structure_upto(ts, i),
    decreases m - i,
{
    if i < m {
        lemma_structure_err_persists(ts, i, m - 1);
    }
}

/// The whole pipeline on one markup text: parse the markup, locate the
/// documentation tables, and classify each into the schema.
pub open spec fn spec_parse(html: Seq<char>) -> Result<ApiStructureView, StructuralError> {
    match locate_in(spec_children(parsed_dom(html))) {
        Err(e) => Err(e),
        Ok(ts) => spec_build_structure(ts),
    }
}

/// The entities of the well-shaped tables: one per three-column table,
/// in document order.
pub open spec fn spec_entities_of_tables(ts: Seq<TableView>) -> Seq<EntityView>
    decreases ts.len(),
{
    if ts.len() == 0 {
        Seq::empty()
    } else {
        spec_entities_of_tables(ts.drop_last()) + (if spec_is_entity_table(ts.last()) {
            seq![spec_entity_of_table(ts.last())]
        } else {
            Seq::empty()
        })
    }
}

/// The operations of the well-shaped tables: one per four-column table,
/// in document order.
pub open spec fn spec_functions_of_tables(ts: Seq<TableView>) -> Seq<FunctionView>
    decreases ts.len(),
{
    if ts.len() == 0 {
        Seq::empty()
    } else {
        spec_functions_of_tables(ts.drop_last()) + (if spec_is_function_table(ts.last()) {
            seq![spec_function_of_table(ts.last())]
        } else {
            Seq::empty()
        })
    }
}

/// Entity requirement rule: a field read from a three-column table is
/// required exactly when its description text does not begin with the
/// marker "Optional".
pub proof fn lemma_entity_requirement_rule(t: TableView, b: int)
    requires
        spec_classify(t) matches Ok(TableKindView::EntityKind(e)) && 0 <= b < e.fields.len(),
    ensures
        spec_classify(t)->Ok_0->EntityKind_0.fields[b] == spec_entity_param(t.rows[b]),
        spec_classify(t)->Ok_0->EntityKind_0.fields[b].required == !"Optional"@.is_prefix_of(
            spec_classify(t)->Ok_0->EntityKind_0.fields[b].description,
        ),
{
}

/// Operation requirement rule: a parameter read from a four-column table
/// is required exactly when the row's flag column reads "Yes".
pub proof fn lemma_function_requirement_rule(t: TableView, b: int)
    requires
        spec_classify(t) matches Ok(TableKindView::FunctionKind(f)) && 0 <= b < f.params.len(),
    ensures
        spec_classify(t)->Ok_0->FunctionKind_0.params[b] == spec_function_param(t.rows[b]),
        spec_classify(t)->Ok_0->FunctionKind_0.params[b].required == (t.rows[b][2] == "Yes"@),
{
}

/// Entity requirement rule over a whole parsed schema: every entity field
/// of every schema the parser returns is required exactly when its
/// description text does not begin with the marker "Optional".
proof fn lemma_structure_entity_fields(ts: Seq<TableView>, i: int, a: int, b: int)
    requires
        spec_structure_upto(ts, i) is Ok,
        0 <= a < spec_structure_upto(ts, i)->Ok_0.entities.len(),
        0 <= b < spec_structure_upto(ts, i)->Ok_0.entities[a].fields.len(),
    ensures
        spec_structure_upto(ts, i)->Ok_0.entities[a].fields[b].required == !"Optional"@.is_prefix_of(
            spec_structure_upto(ts, i)->Ok_0.entities[a].fields[b].description,
        ),
    decreases i,
{
    if i > 0 {
        let acc = spec_structure_upto(ts, i - 1)->Ok_0;
        match spec_classify(ts[i - 1]) {
            Err(_) => {},
            Ok(TableKindView::EntityKind(en)) => {
                if a < acc.entities.len() {
                    lemma_structure_entity_fields(ts, i - 1, a, b);
                } else {
                    assert(spec_structure_upto(ts, i)->Ok_0.entities[a] == en);
                    lemma_entity_requirement_rule(ts[i - 1], b);
                }
            },
            Ok(TableKindView::FunctionKind(_)) => {
                lemma_structure_entity_fields(ts, i - 1, a, b);
            },
        }
    }
}

/// Entity requirement rule over a parsed page: in any schema that
/// parsing a page yields, an entity field is required exactly when its
/// description text does not begin with the marker "Optional".
pub proof fn lemma_parsed_entity_requirement(html: Seq<char>, a: int, b: int)
    requires
        spec_parse(html) is Ok,
        0 <= a < spec_parse(html)->Ok_0.entities.len(),
        0 <= b < spec_parse(html)->Ok_0.entities[a].fields.len(),
    ensures
        spec_parse(html)->Ok_0.entities[a].fields[b].required == !"Optional"@.is_prefix_of(
            spec_parse(html)->Ok_0.entities[a].fields[b].description,
        ),
{
    let ts = locate_in(spec_children(parsed_dom(html)))->Ok_0;
    lemma_structure_entity_fields(ts, ts.len() as int, a, b);
}

/// Classification of a well-shaped prefix of the located tables: every
/// three-column table becomes an entity and every four-column table an
/// operation, each kind in document order.
proof fn lemma_structure_upto_well_shaped(ts: Seq<TableView>, i: int)
    requires
        0 <= i <= ts.len(),
        forall|k: int| 0 <= k < ts.len() ==> (#[trigger] ts[k]).rows.len() > 0,
        forall|k: int|
            0 <= k < ts.len() ==> spec_uniform_cols(
                (#[trigger] ts[k]).rows,
                ts[k].rows[0].len() as int,
            ),
        forall|k: int|
            0 <= k < ts.len() ==> (#[trigger] ts[k]).rows[0].len() == 3 || ts[k].rows[0].len()
                == 4,
    ensures
        spec_structure_upto(ts, i) is Ok,
        spec_structure_upto(ts, i)->Ok_0.entities == spec_entities_of_tables(ts.take(i)),
        spec_structure_upto(ts, i)->Ok_0.functions == spec_functions_of_tables(ts.take(i)),
    decreases i,
{
    if i <= 0 {
        assert(ts.take(0) =~= Seq::<TableView>::empty());
        assert(spec_structure_upto(ts, i)->Ok_0.entities =~= spec_entities_of_tables(ts.take(i)));
        assert(spec_structure_upto(ts, i)->Ok_0.functions =~= spec_functions_of_tables(
            ts.take(i),
        ));
    } else {
        lemma_structure_upto_well_shaped(ts, i - 1);
        assert(ts.take(i).drop_last() =~= ts.take(i - 1));
        assert(ts.take(i).last() == ts[i - 1]);
        assert(ts.take(i).len() == i);
        if spec_is_entity_table(ts[i - 1]) {
            assert(spec_structure_upto(ts, i)->Ok_0.entities =~= spec_entities_of_tables(
                ts.take(i),
            ));
            assert(spec_structure_upto(ts, i)->Ok_0.functions =~= spec_functions_of_tables(
                ts.take(i),
            ));
        } else {
            assert(spec_structure_upto(ts, i)->Ok_0.entities =~= spec_entities_of_tables(
                ts.take(i),
            ));
            assert(spec_structure_upto(ts, i)->Ok_0.functions =~= spec_functions_of_tables(
                ts.take(i),
            ));
        }
    }
}

/// On a page whose located tables each have at least one row and a
/// uniform column count of three or four, parsing succeeds, and no
/// table is misfiled: the entities are exactly the three-column tables
/// and the operations exactly the four-column tables, each kind in
/// document order.
pub proof fn lemma_well_shaped_tables_parse(html: Seq<char>, ts: Seq<TableView>)
    requires
        locate_in(spec_children(parsed_dom(html))) == Result::<
            Seq<TableView>,
            StructuralError,
        >::Ok(ts),
        forall|k: int| 0 <= k < ts.len() ==> (#[trigger] ts[k]).rows.len() > 0,
        forall|k: int|
            0 <= k < ts.len() ==> spec_uniform_cols(
                (#[trigger] ts[k]).rows,
                ts[k].rows[0].len() as int,
            ),
        forall|k: int|
            0 <= k < ts.len() ==> (#[trigger] ts[k]).rows[0].len() == 3 || ts[k].rows[0].len()
                == 4,
    ensures
        spec_parse(html) is Ok,
        spec_parse(html)->Ok_0.entities == spec_entities_of_tables(ts),
        spec_parse(html)->Ok_0.functions == spec_functions_of_tables(ts),
{
    lemma_structure_upto_well_shaped(ts, ts.len() as int);
    assert(ts.take(ts.len() as int) =~= ts);
}

/// Reads one markup page into a typed schema.
pub struct Parser {
    html: String,
}

impl View for Parser {
    type V = Seq<char>;

    closed spec fn view(&self) -> Seq<char> {
        self.html@
    }
}

impl Parser {
    /// Holds the markup text of one documentation page.
    pub fn new(html: String) -> (p: Self)
        ensures
            p@ == html@,
    {
        Self { html }
    }

    /// Extracts the schema of the page: every documentation table,
    /// classified as a data entity (three columns) or an operation
    /// (four columns); or the first structural failure.
    pub fn parse(&self) -> (r: Result<ApiStructure, StructuralError>)
        ensures
            r matches Ok(s) ==> spec_parse(self@) == Result::<
                ApiStructureView,
                StructuralError,
            >::Ok(s@),
            r matches Err(e) ==> spec_parse(self@) == Result::<
                ApiStructureView,
                StructuralError,
            >::Err(e),
    {
        let dom = parse_markup(self.html.as_str());
        let mut tables: Vec<LocatedTable> = Vec::new();
        let located = match &dom {
            DomNode::Element { children, .. } => locate_tables_in(children, &mut tables),
            DomNode::Text { .. } => Ok(()),
        };
        if let Err(e) = located {
            return Err(e);
        }
        proof {
            assert(tables.deep_view() =~= locate_in(spec_children(parsed_dom(self@)))->Ok_0);
        }
        create_api_structure(&tables)
    }
}

/// Builds one field from an entity-table row.
fn entity_param_of_row(row: &Vec<String>) -> (p: Param)
    requires
        row@.len() == 3,
    ensures
        p@ == spec_entity_param(row.deep_view()),
{
    Param {
        name: row[0].clone(),
        param_type: row[1].clone(),
        description: row[2].clone(),
        required: !has_prefix(row[2].as_str(), "Optional"),
    }
}

/// Builds one parameter from an operation-table row.
fn function_param_of_row(row: &Vec<String>) -> (p: Param)
    requires
        row@.len() == 4,
    ensures
        p@ == spec_function_param(row.deep_view()),
{
    Param {
        name: row[0].clone(),
        param_type: row[1].clone(),
        description: row[3].clone(),
        required: string_eq_str(&row[2], "Yes"),
    }
}

/// Builds the entity a three-column table describes.
#[verifier::loop_isolation(false)]
fn create_entity(rows: &Vec<Vec<String>>, name: String, description: String) -> (e: Entity)
    requires
        spec_uniform_cols(rows.deep_view(), 3),
    ensures
        e@ == (EntityView {
            fields: rows.deep_view().map_values(|r: Seq<Seq<char>>| spec_entity_param(r)),
            description: description@,
            name: name@,
        }),
{
    let n = rows.len();
    let mut fields: Vec<Param> = Vec::new();
    for k in 0..n
        invariant
            fields.deep_view() =~= rows.deep_view().take(k as int).map_values(
                |r: Seq<Seq<char>>| spec_entity_param(r),
            ),
        decreases n - k,
    {
        proof {
            assert(rows.deep_view()[k as int].len() == 3);
            assert(rows.deep_view()[k as int] == rows@[k as int].deep_view());
        }
        let p = entity_param_of_row(&rows[k]);
        let ghost before = fields.deep_view();
        let ghost pv = p@;
        fields.push(p);
        proof {
            assert(fields.deep_view() =~= before.push(pv));
            assert(rows.deep_view().take(k + 1 as int).map_values(
                |r: Seq<Seq<char>>| spec_entity_param(r),
            ) =~= before.push(pv));
        }
    }
    proof {
        assert(rows.deep_view().take(n as int) =~= rows.deep_view());
    }
    Entity { fields, description, name }
}

/// Builds the operation a four-column table describes.
#[verifier::loop_isolation(false)]
fn create_function(rows: &Vec<Vec<String>>, name: String, description: String) -> (f: Function)
    requires
        spec_uniform_cols(rows.deep_view(), 4),
    ensures
        f@ == (FunctionView {
            params: rows.deep_view().map_values(|r: Seq<Seq<char>>| spec_function_param(r)),
            description: description@,
            name: name@,
        }),
{
    let n = rows.len();
    let mut params: Vec<Param> = Vec::new();
    for k in 0..n
        invariant
            params.deep_view() =~= rows.deep_view().take(k as int).map_values(
                |r: Seq<Seq<char>>| spec_function_param(r),
            ),
        decreases n - k,
    {
        proof {
            assert(rows.deep_view()[k as int].len() == 4);
            assert(rows.deep_view()[k as int] == rows@[k as int].deep_view());
        }
        let p = function_param_of_row(&rows[k]);
        let ghost before = params.deep_view();
        let ghost pv = p@;
        params.push(p);
        proof {
            assert(params.deep_view() =~= before.push(pv));
            assert(rows.deep_view().take(k + 1 as int).map_values(
                |r: Seq<Seq<char>>| spec_function_param(r),
            ) =~= before.push(pv));
        }
    }
    proof {
        assert(rows.deep_view().take(n as int) =~= rows.deep_view());
    }
    Function { params, description, name }
}

/// Checks that every row of a table has exactly `c` columns.
#[verifier::loop_isolation(false)]
fn check_uniform_cols(rows: &Vec<Vec<String>>, c: usize) -> (b: bool)
    ensures
        b == spec_uniform_cols(rows.deep_view(), c as int),
{
    let n = rows.len();
    for k in 0..n
        invariant
            forall|j: int| 0 <= j < k ==> (#[trigger] rows.deep_view()[j]).len() == c,
        decreases n - k,
    {
        if rows[k].len() != c {
            assert(rows.deep_view()[k as int].len() != c);
            return false;
        }
    }
    true
}

/// Classifies every located table, in document order, into the schema:
/// entities from three-column tables, operations from four-column ones;
/// or the first classification failure.
#[verifier::loop_isolation(false)]
fn create_api_structure(tables: &Vec<LocatedTable>) -> (r: Result<ApiStructure, StructuralError>)
    ensures
        r matches Ok(s) ==> spec_build_structure(tables.deep_view()) == Result::<
            ApiStructureView,
            StructuralError,
        >::Ok(s@),
        r matches Err(e) ==> spec_build_structure(tables.deep_view()) == Result::<
            ApiStructureView,
            StructuralError,
        >::Err(e),
{
    let n = tables.len();
    let mut functions: Vec<Function> = Vec::new();
    let mut entities: Vec<Entity> = Vec::new();
    proof {
        assert(functions.deep_view() =~= Seq::<FunctionView>::empty());
        assert(entities.deep_view() =~= Seq::<EntityView>::empty());
    }
    for i in 0..n
        invariant
            spec_structure_upto(tables.deep_view(), i as int) == Result::<
                ApiStructureView,
                StructuralError,
            >::Ok(
                ApiStructureView {
                    functions: functions.deep_view(),
                    entities: entities.deep_view(),
                },
            ),
        decreases n - i,
    {
        let t = &tables[i];
        let ghost tv = tables.deep_view()[i as int];
        let classified: Result<(), StructuralError> = if t.rows.len() == 0 {
            Err(StructuralError::EmptyTable)
        } else {
            let c = t.rows[0].len();
            if !check_uniform_cols(&t.rows, c) {
                Err(StructuralError::UnevenColumns)
            } else if c == 3 {
                let en = create_entity(&t.rows, t.name.clone(), t.description.clone());
                let ghost before = entities.deep_view();
                let ghost ev = en@;
                entities.push(en);
                proof {
                    assert(entities.deep_view() =~= before.push(ev));
                }
                Ok(())
            } else if c == 4 {
                let f = create_function(&t.rows, t.name.clone(), t.description.clone());
                let ghost before = functions.deep_view();
                let ghost fv = f@;
                functions.push(f);
                proof {
                    assert(functions.deep_view() =~= before.push(fv));
                }
                Ok(())
            } else {
                Err(StructuralError::UnsupportedColumns)
            }
        };
        if let Err(e) = classified {
            proof {
                assert(spec_classify(tv) == Result::<TableKindView, StructuralError>::Err(e));
                lemma_structure_err_persists(tables.deep_view(), i + 1, n as int);
            }
            return Err(e);
        }
    }
    Ok(ApiStructure { functions, entities })
}

/// The parts of `text` between the matches of `pattern`, as the regex
/// engine splits them; a function of the two texts alone.
pub uninterp spec fn regex_split_parts(pattern: Seq<char>, text: Seq<char>) -> Seq<Seq<char>>;

/// Relies on regex::Regex::split: the result holds the substrings of
/// `text` between the matches of `pattern`, in order, and is never empty,
/// since a text without matches is handed back whole.  A pattern that
/// does not compile also leaves the text whole, so the result depends on
/// the two arguments alone.
#[verifier::external_body]
fn regex_split(pattern: &str, text: &str) -> (r: Vec<String>)
    ensures
        r.deep_view() == regex_split_parts(pattern@, text@),
        r@.len() >= 1,
{
    match regex::Regex::new(pattern) {
        Ok(re) => re.split(text).map(|part| part.to_string()).collect(),
        Err(_) => vec![text.to_string()],
    }
}

/// The delimiters at which a multi-alternative type phrase splits: a
/// comma, the word "and", or the word "or".
pub open spec fn spec_delimiter_pattern() -> Seq<char> {
    ",| and | or"@
}

/// The trimmed pieces a type text splits into at the alternative
/// delimiters.
pub open spec fn spec_split_tokens(t: Seq<char>) -> Seq<Seq<char>> {
    regex_split_parts(spec_delimiter_pattern(), t).map_values(|p: Seq<char>| trim_spec(p))
}

/// Whether a raw type text names an array: it begins with the marker
/// "Array of".
pub open spec fn spec_is_array(t: Seq<char>) -> bool {
    "Array of"@.is_prefix_of(t)
}

/// The raw type text with every leading "Array of" marker stripped and
/// the remainder trimmed.
pub open spec fn spec_array_stripped(t: Seq<char>) -> Seq<char>
    decreases t.len(),
{
    if "Array of"@.is_prefix_of(t) {
        proof {
            reveal_strlit("Array of");
            lemma_trim_len(t.subrange("Array of"@.len() as int, t.len() as int));
        }
        spec_array_stripped(trim_spec(t.subrange("Array of"@.len() as int, t.len() as int)))
    } else {
        t
    }
}

/// The literal mapping and alternative detection on a stripped type
/// text: "Boolean", "True" and "False" map to bool and "Integer" to
/// isize; any other text splits at the delimiters, one piece naming a
/// scalar type, several an enumerated alternative.
pub open spec fn spec_rust_type(t: Seq<char>) -> RustTypeView {
    if t == "Boolean"@ || t == "True"@ || t == "False"@ {
        RustTypeView::Simple("bool"@)
    } else if t == "Integer"@ {
        RustTypeView::Simple("isize"@)
    } else {
        let toks = spec_split_tokens(t);
        if toks.len() == 1 {
            RustTypeView::Simple(toks[0])
        } else {
            RustTypeView::Enum(toks)
        }
    }
}

/// The full inferred type of one field: array-ness from the "Array of"
/// marker, the base shape from the stripped text, optionality from the
/// field's requirement.
pub open spec fn spec_parsed_type(p: ParamView) -> ParsedTypeView {
    ParsedTypeView {
        array: spec_is_array(p.param_type),
        option: !p.required,
        rust_type: spec_rust_type(spec_array_stripped(p.param_type)),
    }
}

/// The derived name of the enumeration a multi-alternative field gives
/// rise to.
pub open spec fn spec_enum_name(name: Seq<char>) -> Seq<char> {
    crate::casing::upper_camel(name) + "Enum"@
}

/// The literal mapping and alternative detection on a stripped type text.
#[verifier::loop_isolation(false)]
fn parse_type_text(t: &String) -> (r: RustType)
    ensures
        r@ == spec_rust_type(t@),
{
    if string_eq_str(t, "Boolean") || string_eq_str(t, "True") || string_eq_str(t, "False") {
        RustType::Simple(String::from_str("bool"))
    } else if string_eq_str(t, "Integer") {
        RustType::Simple(String::from_str("isize"))
    } else {
        let parts = regex_split(",| and | or", t.as_str());
        let n = parts.len();
        let mut toks: Vec<String> = Vec::new();
        proof {
            assert(toks.deep_view() =~= parts.deep_view().take(0).map_values(
                |p: Seq<char>| trim_spec(p),
            ));
        }
        for k in 0..n
            invariant
                toks.deep_view() == parts.deep_view().take(k as int).map_values(
                    |p: Seq<char>| trim_spec(p),
                ),
            decreases n - k,
        {
            let w = trimmed(parts[k].as_str());
            let ghost before = toks.deep_view();
            let ghost wv = w@;
            toks.push(w);
            proof {
                assert(toks.deep_view() =~= before.push(wv));
                assert(parts.deep_view().take(k + 1 as int).map_values(
                    |p: Seq<char>| trim_spec(p),
                ) =~= before.push(wv));
            }
        }
        proof {
            assert(parts.deep_view().take(n as int) =~= parts.deep_view());
        }
        if toks.len() == 1 {
            RustType::Simple(toks[0].clone())
        } else {
            RustType::Enum(toks)
        }
    }
}

impl Param {
    /// Infers the structured type of this field from its raw type text
    /// and its requirement.
    #[verifier::loop_isolation(false)]
    pub fn as_rust_type(&self) -> (r: ParsedType)
        ensures
            r@ == spec_parsed_type(self@),
    {
        let is_arr = has_prefix(self.param_type.as_str(), "Array of");
        let mut base = self.param_type.clone();
        while has_prefix(base.as_str(), "Array of")
            invariant
                spec_array_stripped(base@) == spec_array_stripped(self.param_type@),
            decreases base@.len(),
        {
            proof {
                reveal_strlit("Array of");
            }
            let n = base.as_str().unicode_len();
            let rest = trimmed(base.as_str().substring_char(8, n));
            proof {
                lemma_trim_len(base@.subrange(8, n as int));
            }
            base = rest;
        }
        let rust_type = parse_type_text(&base);
        ParsedType { array: is_arr, option: !self.required, rust_type }
    }

    /// The derived name of the enumeration this field gives rise to:
    /// its name in UpperCamelCase, with "Enum" appended.
    pub fn enum_name(&self) -> (r: String)
        ensures
            r@ == spec_enum_name(self@.name),
    {
        crate::casing::to_upper_camel(self.name.as_str()).concat("Enum")
    }
}

} // verus!

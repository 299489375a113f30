//! The HTML page that plots the attributes with Chart.js.
use vstd::prelude::*;
use crate::file_questionary::{
    color_text, data_option_text, data_option_views, style_name, BuildHandle, BuildHandleView,
    DataSetOptionView, GraphView,
};
use crate::text::{str_views, string_views};

verus! {

/// The page up to the chart's script, which loads Chart.js.
pub const HTML_TOP: &'static str = "<html><head><div><canvas id=\"myChart\"></canvas></div><script src=\"https://cdn.jsdelivr.net/npm/chart.js\"></script><script>";

/// The end of the chart's script and of the page.
pub const HTML_BOTTOM: &'static str = "const config = {data: data,};const myChart = new Chart(document.getElementById('myChart'),config);</script></head><body></body></html>";

/// The cells of a table, column by column, as character sequences.
pub open spec fn table_views(v: Seq<Vec<String>>) -> Seq<Seq<Seq<char>>> {
    v.map_values(|col: Vec<String>| string_views(col@))
}

/// Each value followed by a comma.
pub open spec fn array_items(xs: Seq<Seq<char>>) -> Seq<char>
    decreases xs.len(),
{
    if xs.len() == 0 {
        Seq::<char>::empty()
    } else {
        array_items(xs.drop_last()) + xs.last() + ","@
    }
}

/// A script array of the values: `[v1,v2,...,]`.
pub open spec fn array_text(xs: Seq<Seq<char>>) -> Seq<char> {
    "["@ + array_items(xs) + "]"@
}

/// A property of a script object: `kind : data,`.
pub open spec fn type_text(kind: Seq<char>, data: Seq<char>) -> Seq<char> {
    kind + " : "@ + data + ","@
}

/// Each data-set option as the script writes it, followed by a comma.
pub open spec fn options_text(opts: Seq<DataSetOptionView>) -> Seq<char>
    decreases opts.len(),
{
    if opts.len() == 0 {
        Seq::<char>::empty()
    } else {
        options_text(opts.drop_last()) + data_option_text(opts.last()) + ","@
    }
}

/// The script object of one data set: the attribute's name, its colour as
/// background and border, its kind of chart, its data-set options and its
/// values.
pub open spec fn dataset_text(attr: Seq<char>, g: GraphView, values: Seq<Seq<char>>) -> Seq<char> {
    "{"@ + type_text("label"@, attr) + type_text("backgroundColor"@, color_text(g.color))
        + type_text("borderColor"@, color_text(g.color)) + type_text(
        "type"@,
        "\""@ + style_name(g.style) + "\""@,
    ) + options_text(g.data_config) + "data : "@ + array_text(values) + "},"@
}

/// The first `n` data sets: the `i`th is attribute `i`, drawn by graph `i`,
/// with the values of column `i + 1` (column 0 holds the times).
pub open spec fn datasets_text(
    attrs: Seq<Seq<char>>,
    nodes: Seq<GraphView>,
    data: Seq<Seq<Seq<char>>>,
    n: int,
) -> Seq<char>
    decreases n,
{
    if n <= 0 {
        Seq::<char>::empty()
    } else {
        datasets_text(attrs, nodes, data, n - 1) + dataset_text(
            attrs[n - 1],
            nodes[n - 1],
            data[n],
        )
    }
}

/// The script's labels: the times.
pub open spec fn labels_text(times: Seq<Seq<char>>) -> Seq<char> {
    "const labels = "@ + array_text(times) + ";"@
}

/// The script's data: one data set per graph.
pub open spec fn data_text(
    attrs: Seq<Seq<char>>,
    nodes: Seq<GraphView>,
    data: Seq<Seq<Seq<char>>>,
) -> Seq<char> {
    "const data = {labels: labels,datasets: ["@ + datasets_text(attrs, nodes, data, nodes.len() as int)
        + "]};"@
}

/// The whole page: Chart.js, the times as labels, one data set per graph.
pub open spec fn page_text(
    data: Seq<Seq<Seq<char>>>,
    attrs: Seq<Seq<char>>,
    handle: BuildHandleView,
) -> Seq<char> {
    HTML_TOP@ + labels_text(data[0]) + data_text(attrs, handle.nodes, data) + HTML_BOTTOM@
}

fn append_lables(page: &mut String, times: &Vec<String>)
    ensures
        final(page)@ == old(page)@ + labels_text(string_views(times@)),
{
    page.append("const labels = ");
    add_array(page, times);
    page.append(";");
}

fn append_data(page: &mut String, attrs: Vec<&str>, data: &Vec<Vec<String>>, handle: BuildHandle)
    requires
        attrs.len() >= handle.nodes.len(),
        handle.nodes.len() == 0 || data.len() > handle.nodes.len(),
    ensures
        final(page)@ == old(page)@ + data_text(
            str_views(attrs@),
            handle@.nodes,
            table_views(data@),
        ),
{
    let ghost attrs_v = str_views(attrs@);
    let ghost data_v = table_views(data@);
    page.append("const data = {labels: labels,datasets: [");
    let ghost start = page@;
    let mut p: usize = 0;
    while p < handle.nodes.len()
        invariant
            p <= handle.nodes.len(),
            attrs.len() >= handle.nodes.len(),
            handle.nodes.len() == 0 || data.len() > handle.nodes.len(),
            attrs_v == str_views(attrs@),
            data_v == table_views(data@),
            page@ == start + datasets_text(attrs_v, handle@.nodes, data_v, p as int),
        decreases handle.nodes.len() - p,
    {
        let ghost before = page@;
        append_dataset(page, attrs[p], &handle.nodes[p], &data[p + 1]);
        assert(table_views(data@)[p + 1] == string_views(data@[p + 1]@));
        assert(page@ =~= before + dataset_text(attrs_v[p as int], handle@.nodes[p as int], data_v[p + 1]));
        p = p + 1;
    }
    page.append("]};");
}

/// Appends the script object of one data set.
fn append_dataset(page: &mut String, attr: &str, node: &crate::file_questionary::Graph, values: &Vec<String>)
    ensures
        final(page)@ == old(page)@ + dataset_text(attr@, node@, string_views(values@)),
{
    page.append("{");
    add_type(page, "label", attr);
    let color = node.color.into_string();
    add_type(page, "backgroundColor", color.as_str());
    add_type(page, "borderColor", color.as_str());
    let quoted = String::from_str("\"").concat(node.style.into_string().as_str()).concat("\"");
    add_type(page, "type", quoted.as_str());
    append_options(page, &node.data_config);
    page.append("data : ");
    add_array(page, values);
    page.append("},");
}

/// Appends each data-set option, followed by a comma.
fn append_options(page: &mut String, opts: &Vec<crate::file_questionary::DataSetOption>)
    ensures
        final(page)@ == old(page)@ + options_text(data_option_views(opts@)),
{
    let ghost start = page@;
    let mut i: usize = 0;
    while i < opts.len()
        invariant
            i <= opts.len(),
            page@ == start + options_text(data_option_views(opts@).subrange(0, i as int)),
        decreases opts.len() - i,
    {
        let parsed_conf = opts[i].to_text();
        page.append(parsed_conf.as_str());
        page.append(",");
        assert(data_option_views(opts@).subrange(0, i + 1).drop_last() =~= data_option_views(
            opts@,
        ).subrange(0, i as int));
        i = i + 1;
    }
    assert(data_option_views(opts@).subrange(0, i as int) =~= data_option_views(opts@));
}

/// Appends a property of a script object: `kind : data,`.
pub fn add_type(page: &mut String, kind: &str, data: &str)
    ensures
        final(page)@ == old(page)@ + type_text(kind@, data@),
{
    page.append(kind);
    page.append(" : ");
    page.append(data);
    page.append(",");
}

/// Appends a script array of the values.
fn add_array(page: &mut String, data: &Vec<String>)
    ensures
        final(page)@ == old(page)@ + array_text(string_views(data@)),
{
    page.append("[");
    let ghost start = page@;
    let mut i: usize = 0;
    while i < data.len()
        invariant
            i <= data.len(),
            page@ == start + array_items(string_views(data@).subrange(0, i as int)),
        decreases data.len() - i,
    {
        page.append(data[i].as_str());
        page.append(",");
        assert(string_views(data@).subrange(0, i + 1).drop_last() =~= string_views(data@).subrange(
            0,
            i as int,
        ));
        i = i + 1;
    }
    assert(string_views(data@).subrange(0, i as int) =~= string_views(data@));
    page.append("]");
}

/// The HTML page that plots every attribute over time. `data` holds the
/// columns of values as the page shows them: column 0 the times, column
/// `i + 1` the values of attribute `i`; `attrs` names the attributes and
/// `handle` says how each is drawn.
pub fn buid_html_page_str(data: Vec<Vec<String>>, attrs: Vec<&str>, handle: BuildHandle) -> (r:
    String)
    requires
        data.len() >= 1,
        attrs.len() >= handle.nodes.len(),
        handle.nodes.len() == 0 || data.len() > handle.nodes.len(),
    ensures
        r@ == page_text(table_views(data@), str_views(attrs@), handle@),
{
    let mut page = String::new();
    page.append(HTML_TOP);
    append_lables(&mut page, &data[0]);
    append_data(&mut page, attrs, &data, handle);
    page.append(HTML_BOTTOM);
    page
}

/// Two graphs that draw alike: same colour, kind of chart and data-set
/// options.
pub open spec fn draw_alike(a: GraphView, b: GraphView) -> bool {
    a.color == b.color && a.style == b.style && a.data_config == b.data_config
}

proof fn lemma_datasets_ignore_equations(
    attrs: Seq<Seq<char>>,
    n1: Seq<GraphView>,
    n2: Seq<GraphView>,
    data: Seq<Seq<Seq<char>>>,
    n: int,
)
    requires
        0 <= n <= n1.len(),
        n1.len() == n2.len(),
        forall|i: int| 0 <= i < n1.len() ==> draw_alike(#[trigger] n1[i], n2[i]),
    ensures
        datasets_text(attrs, n1, data, n) == datasets_text(attrs, n2, data, n),
    decreases n,
{
    if n > 0 {
        lemma_datasets_ignore_equations(attrs, n1, n2, data, n - 1);
        assert(draw_alike(n1[n - 1], n2[n - 1]));
    }
}

/// The page does not depend on a graph's equation or chart options, nor on
/// the file's settings: handles whose graphs draw alike, one for one, give
/// the same page.
pub proof fn law_page_ignores_equations_and_settings(
    data: Seq<Seq<Seq<char>>>,
    attrs: Seq<Seq<char>>,
    h1: BuildHandleView,
    h2: BuildHandleView,
)
    requires
        h1.nodes.len() == h2.nodes.len(),
        forall|i: int| 0 <= i < h1.nodes.len() ==> draw_alike(#[trigger] h1.nodes[i], h2.nodes[i]),
    ensures
        data_text(attrs, h1.nodes, data) == data_text(attrs, h2.nodes, data),
        page_text(data, attrs, h1) == page_text(data, attrs, h2),
{
    lemma_datasets_ignore_equations(attrs, h1.nodes, h2.nodes, data, h1.nodes.len() as int);
}

proof fn lemma_datasets_prefix(
    attrs: Seq<Seq<char>>,
    nodes: Seq<GraphView>,
    data: Seq<Seq<Seq<char>>>,
    i: int,
    n: int,
)
    requires
        0 <= i <= n,
    ensures
        datasets_text(attrs, nodes, data, n) =~= datasets_text(attrs, nodes, data, i)
            + datasets_text(attrs, nodes, data, n).subrange(
            datasets_text(attrs, nodes, data, i).len() as int,
            datasets_text(attrs, nodes, data, n).len() as int,
        ),
    decreases n - i,
{
    if i < n {
        lemma_datasets_prefix(attrs, nodes, data, i, n - 1);
    }
}

/// The page's data sets come in the order of the graphs, and the `i`th is
/// attribute `i`, drawn by graph `i`, with the values of column `i + 1` of
/// the table (column 0 holds the times): the page is its beginning, the data
/// sets before it and that data set begin the page.
pub proof fn law_dataset_i_plots_column_i_plus_one(
    data: Seq<Seq<Seq<char>>>,
    attrs: Seq<Seq<char>>,
    h: BuildHandleView,
    i: int,
)
    requires
        0 <= i < h.nodes.len(),
    ensures
        crate::text::has_prefix(
            page_text(data, attrs, h),
            HTML_TOP@ + labels_text(data[0]) + "const data = {labels: labels,datasets: ["@
                + datasets_text(attrs, h.nodes, data, i) + dataset_text(attrs[i], h.nodes[i], data[i + 1]),
        ),
{
    let n = h.nodes.len() as int;
    lemma_datasets_prefix(attrs, h.nodes, data, i + 1, n);
    let all = datasets_text(attrs, h.nodes, data, n);
    let before = datasets_text(attrs, h.nodes, data, i);
    let x = dataset_text(attrs[i], h.nodes[i], data[i + 1]);
    let upto = datasets_text(attrs, h.nodes, data, i + 1);
    let tail = all.subrange(upto.len() as int, all.len() as int);
    assert(upto == before + x);
    let start = HTML_TOP@ + labels_text(data[0]) + "const data = {labels: labels,datasets: ["@;
    let end = "]};"@ + HTML_BOTTOM@;
    lemma_page_parts(data, attrs, h);
    lemma_prefix_of_concat(start, before, x, tail, end);
}

proof fn lemma_page_parts(data: Seq<Seq<Seq<char>>>, attrs: Seq<Seq<char>>, h: BuildHandleView)
    ensures
        page_text(data, attrs, h) == (HTML_TOP@ + labels_text(data[0])
            + "const data = {labels: labels,datasets: ["@) + datasets_text(
            attrs,
            h.nodes,
            data,
            h.nodes.len() as int,
        ) + ("]};"@ + HTML_BOTTOM@),
{
    assert(page_text(data, attrs, h) =~= (HTML_TOP@ + labels_text(data[0])
        + "const data = {labels: labels,datasets: ["@) + datasets_text(
        attrs,
        h.nodes,
        data,
        h.nodes.len() as int,
    ) + ("]};"@ + HTML_BOTTOM@));
}

proof fn lemma_prefix_of_concat(
    start: Seq<char>,
    before: Seq<char>,
    x: Seq<char>,
    tail: Seq<char>,
    end: Seq<char>,
)
    ensures
        crate::text::has_prefix(start + (before + x + tail) + end, start + before + x),
{
    let pre = start + before + x;
    assert(start + (before + x + tail) + end =~= pre + (tail + end));
    assert((pre + (tail + end)).subrange(0, pre.len() as int) =~= pre);
}

} // verus!

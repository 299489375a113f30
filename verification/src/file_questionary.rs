//! What the user chooses for each attribute: the kinds of chart, colours and
//! options, the file-wide sampling settings, and the questionary that asks
//! for them.
use vstd::prelude::*;
use core::ops::Range;
use crate::text::{
    after_first, after_first_char, split_once, split_once_char, bool_string, bool_text, decimal, eq_ignore_ascii_case,
    ascii_lower, eq_ignoring_ascii_case, has_prefix, lemma_decimal, lemma_split_concat, lemma_split_no_sep, parse_bool, parse_bool_text, parse_i64, parse_i64_text,
    parse_u64, parse_u8, parse_unsigned, push_decimal, split, split_borrowed, starts_with,
    str_views,
};

verus! {

/// A colour as red, green and blue intensities.
#[derive(Debug, Clone, Copy)]
pub struct Color(pub u8, pub u8, pub u8);

/// A random byte: `rand::random::<u8>()`. Nothing is claimed of its value.
#[verifier::external_body]
fn random_byte() -> u8 {
    rand::random::<u8>()
}

/// The colour's CSS notation, quoted for a script: `'rgb(R,G,B)'`.
pub open spec fn color_text(c: Color) -> Seq<char> {
    "'rgb("@ + decimal(c.0 as nat) + ","@ + decimal(c.1 as nat) + ","@ + decimal(c.2 as nat)
        + ")'"@
}

/// The intensity that the `i`th comma-separated field gives: its value as a
/// byte, or 0 where there is no such field or it is no byte.
pub open spec fn color_component(fields: Seq<Seq<char>>, i: int) -> u8 {
    if i < fields.len() {
        match parse_unsigned(fields[i], 255) {
            Some(v) => v as u8,
            None => 0,
        }
    } else {
        0
    }
}

/// The colour that a text `R,G,B` names.
pub open spec fn color_from_text(s: Seq<char>) -> Color {
    let fields = split(s, ',');
    Color(color_component(fields, 0), color_component(fields, 1), color_component(fields, 2))
}

impl Color {
    /// The colour's CSS notation, quoted for a script: `'rgb(R,G,B)'`.
    pub fn into_string(self) -> (r: String)
        ensures
            r@ == color_text(self),
    {
        let mut out = String::from_str("'rgb(");
        push_decimal(&mut out, self.0 as u64);
        out.append(",");
        push_decimal(&mut out, self.1 as u64);
        out.append(",");
        push_decimal(&mut out, self.2 as u64);
        out.append(")'");
        out
    }

    /// The colour that a text `R,G,B` names; a missing or unreadable
    /// intensity is 0, and fields after the third are ignored.
    pub fn from_text(s: &str) -> (r: Color)
        ensures
            r == color_from_text(s@),
    {
        let fields = split_borrowed(s, ',');
        let mut c = Color(0, 0, 0);
        let mut i: usize = 0;
        while i < fields.len() && i < 3
            invariant
                i <= fields.len(),
                i <= 3,
                str_views(fields@) == split(s@, ','),
                i > 0 ==> c.0 == color_component(split(s@, ','), 0),
                i > 1 ==> c.1 == color_component(split(s@, ','), 1),
                i > 2 ==> c.2 == color_component(split(s@, ','), 2),
                i <= 0 ==> c.0 == 0,
                i <= 1 ==> c.1 == 0,
                i <= 2 ==> c.2 == 0,
            decreases 3 - i,
        {
            assert(fields@[i as int]@ == split(s@, ',')[i as int]);
            let v = match parse_u8(fields[i]) {
                Some(v) => v,
                None => 0,
            };
            if i == 0 {
                c.0 = v;
            } else if i == 1 {
                c.1 = v;
            } else {
                c.2 = v;
            }
            i = i + 1;
        }
        c
    }
}

impl From<String> for Color {
    fn from(str: String) -> (r: Color) {
        Color::from_text(str.as_str())
    }
}

impl vstd::std_specs::convert::FromSpecImpl<String> for Color {
    open spec fn obeys_from_spec() -> bool {
        true
    }

    open spec fn from_spec(v: String) -> Color {
        color_from_text(v@)
    }
}

impl Default for Color {
    /// A colour of random intensities.
    fn default() -> (r: Color) {
        Color(random_byte(), random_byte(), random_byte())
    }
}

/// The kinds of chart that a data set can be drawn as.
#[allow(non_camel_case_types)]
#[derive(Debug, Clone, Copy)]
pub enum GraphStyle {
    BAR,
    LINE,
    BUBBLE,
    DOUGHNUT,
    PIE,
    POLAR_AREA,
    RADAR,
}

/// A type whose values the questionary lists to the user.
trait SumEnum {
    fn list_items() -> String;
}

/// The name that the chart library knows a kind of chart by.
pub open spec fn style_name(s: GraphStyle) -> Seq<char> {
    match s {
        GraphStyle::BAR => "bar"@,
        GraphStyle::LINE => "line"@,
        GraphStyle::BUBBLE => "bubble"@,
        GraphStyle::DOUGHNUT => "doughnut"@,
        GraphStyle::PIE => "pie"@,
        GraphStyle::POLAR_AREA => "polarArea"@,
        GraphStyle::RADAR => "radar"@,
    }
}

/// The kind of chart that a text names, whatever the case of its ASCII
/// letters; a line chart where it names none.
pub open spec fn style_from_text(s: Seq<char>) -> GraphStyle {
    if eq_ignoring_ascii_case(s, "bar"@) {
        GraphStyle::BAR
    } else if eq_ignoring_ascii_case(s, "line"@) {
        GraphStyle::LINE
    } else if eq_ignoring_ascii_case(s, "bubble"@) {
        GraphStyle::BUBBLE
    } else if eq_ignoring_ascii_case(s, "doughnut"@) {
        GraphStyle::DOUGHNUT
    } else if eq_ignoring_ascii_case(s, "pie"@) {
        GraphStyle::PIE
    } else if eq_ignoring_ascii_case(s, "polar_area"@) {
        GraphStyle::POLAR_AREA
    } else if eq_ignoring_ascii_case(s, "radar"@) {
        GraphStyle::RADAR
    } else {
        GraphStyle::LINE
    }
}

pub open spec fn style_list() -> Seq<char> {
    "BAR,\n        LINE,\n        BUBBLE,\n        DOUGHNUT,\n        PIE,\n        POLAR_AREA,\n        RADAR"@
}

impl SumEnum for GraphStyle {
    fn list_items() -> (r: String)
        ensures
            r@ == style_list(),
    {
        String::from_str(
            "BAR,\n        LINE,\n        BUBBLE,\n        DOUGHNUT,\n        PIE,\n        POLAR_AREA,\n        RADAR",
        )
    }
}

impl GraphStyle {
    /// The name that the chart library knows this kind of chart by.
    pub fn into_string(self) -> (r: String)
        ensures
            r@ == style_name(self),
    {
        match self {
            GraphStyle::BAR => String::from_str("bar"),
            GraphStyle::LINE => String::from_str("line"),
            GraphStyle::BUBBLE => String::from_str("bubble"),
            GraphStyle::DOUGHNUT => String::from_str("doughnut"),
            GraphStyle::PIE => String::from_str("pie"),
            GraphStyle::POLAR_AREA => String::from_str("polarArea"),
            GraphStyle::RADAR => String::from_str("radar"),
        }
    }

    /// The kind of chart that a text names, whatever the case of its ASCII
    /// letters; a line chart where it names none.
    pub fn from_text(s: &str) -> (r: GraphStyle)
        ensures
            r == style_from_text(s@),
    {
        if eq_ignore_ascii_case(s, "bar") {
            GraphStyle::BAR
        } else if eq_ignore_ascii_case(s, "line") {
            GraphStyle::LINE
        } else if eq_ignore_ascii_case(s, "bubble") {
            GraphStyle::BUBBLE
        } else if eq_ignore_ascii_case(s, "doughnut") {
            GraphStyle::DOUGHNUT
        } else if eq_ignore_ascii_case(s, "pie") {
            GraphStyle::PIE
        } else if eq_ignore_ascii_case(s, "polar_area") {
            GraphStyle::POLAR_AREA
        } else if eq_ignore_ascii_case(s, "radar") {
            GraphStyle::RADAR
        } else {
            GraphStyle::LINE
        }
    }
}

impl From<String> for GraphStyle {
    fn from(string: String) -> (r: GraphStyle) {
        GraphStyle::from_text(string.as_str())
    }
}

impl vstd::std_specs::convert::FromSpecImpl<String> for GraphStyle {
    open spec fn obeys_from_spec() -> bool {
        true
    }

    open spec fn from_spec(v: String) -> GraphStyle {
        style_from_text(v@)
    }
}

/// A data-set option of the chart. A real number is held as the decimal text
/// that the program shows for it.
#[derive(Clone, Debug)]
pub enum DataSetOption {
    TENSION(String),
    FILL(bool),
    ORDER(u64),
}

/// A data-set option, its texts as character sequences.
#[verifier::ext_equal]
pub enum DataSetOptionView {
    Tension(Seq<char>),
    Fill(bool),
    Order(u64),
}

impl View for DataSetOption {
    type V = DataSetOptionView;

    open spec fn view(&self) -> DataSetOptionView {
        match self {
            DataSetOption::TENSION(t) => DataSetOptionView::Tension(t@),
            DataSetOption::FILL(b) => DataSetOptionView::Fill(*b),
            DataSetOption::ORDER(n) => DataSetOptionView::Order(*n),
        }
    }
}

/// The data-set option that an answer `name=VALUE` asks for, where `number` is
/// the shown form of VALUE read as a real number: `tension…` takes `number`,
/// `fill…` takes VALUE as a boolean (false where it is none), `order…` takes
/// VALUE as an unsigned number (0 where it is none); any other answer turns
/// filling off.
pub open spec fn data_option_from(answer: Seq<char>, number: Seq<char>) -> DataSetOptionView {
    let value = after_first(answer, '=');
    if has_prefix(answer, "tension"@) {
        DataSetOptionView::Tension(number)
    } else if has_prefix(answer, "fill"@) {
        DataSetOptionView::Fill(
            match parse_bool_text(value) {
                Some(b) => b,
                None => false,
            },
        )
    } else if has_prefix(answer, "order"@) {
        DataSetOptionView::Order(
            match parse_unsigned(value, u64::MAX as nat) {
                Some(v) => v as u64,
                None => 0,
            },
        )
    } else {
        DataSetOptionView::Fill(false)
    }
}

/// How a data-set option is written into the chart's script.
pub open spec fn data_option_text(o: DataSetOptionView) -> Seq<char> {
    match o {
        DataSetOptionView::Tension(t) => "tension : "@ + t + " "@,
        DataSetOptionView::Fill(b) => "fill : "@ + bool_text(b) + " "@,
        DataSetOptionView::Order(n) => "order : "@ + decimal(n as nat) + " "@,
    }
}

pub open spec fn data_option_list() -> Seq<char> {
    "TENSION(Rational),\n         FILL(Boolean),\n        ORDER(Natural)"@
}

impl SumEnum for DataSetOption {
    fn list_items() -> (r: String)
        ensures
            r@ == data_option_list(),
    {
        String::from_str("TENSION(Rational),\n         FILL(Boolean),\n        ORDER(Natural)")
    }
}

impl DataSetOption {
    /// The data-set option that an answer `name=VALUE` asks for; `number` is the
    /// shown form of VALUE read as a real number, which `tension` takes.
    pub fn from_answer(answer: &str, number: String) -> (r: DataSetOption)
        ensures
            r@ == data_option_from(answer@, number@),
    {
        let value = after_first_char(answer, '=');
        if starts_with(answer, "tension") {
            DataSetOption::TENSION(number)
        } else if starts_with(answer, "fill") {
            DataSetOption::FILL(
                match parse_bool(value) {
                    Some(b) => b,
                    None => false,
                },
            )
        } else if starts_with(answer, "order") {
            DataSetOption::ORDER(
                match parse_u64(value) {
                    Some(v) => v,
                    None => 0,
                },
            )
        } else {
            DataSetOption::FILL(false)
        }
    }

    /// How the option is written into the chart's script.
    pub fn into_string(self) -> (r: String)
        ensures
            r@ == data_option_text(self@),
    {
        self.to_text()
    }

    /// How the option is written into the chart's script.
    pub fn to_text(&self) -> (r: String)
        ensures
            r@ == data_option_text(self@),
    {
        match self {
            DataSetOption::TENSION(tension) => {
                let out = String::from_str("tension : ");
                out.concat(tension.as_str()).concat(" ")
            },
            DataSetOption::FILL(fill) => {
                let out = String::from_str("fill : ");
                out.concat(bool_string(*fill).as_str()).concat(" ")
            },
            DataSetOption::ORDER(order) => {
                let mut out = String::from_str("order : ");
                push_decimal(&mut out, *order);
                out.concat(" ")
            },
        }
    }
}

/// A chart-wide option. A real number is held as the decimal text that the
/// program shows for it.
#[derive(Clone, Debug)]
pub enum ConfigOption {
    RADIUS(String),
    RESPONSIVE(bool),
}

/// A chart-wide option, its texts as character sequences.
#[verifier::ext_equal]
pub enum ConfigOptionView {
    Radius(Seq<char>),
    Responsive(bool),
}

impl View for ConfigOption {
    type V = ConfigOptionView;

    open spec fn view(&self) -> ConfigOptionView {
        match self {
            ConfigOption::RADIUS(r) => ConfigOptionView::Radius(r@),
            ConfigOption::RESPONSIVE(b) => ConfigOptionView::Responsive(*b),
        }
    }
}

/// The chart option that an answer `name=VALUE` asks for, where `number` is the
/// shown form of VALUE read as a real number: `radius…` takes `number`,
/// `responsive…` takes VALUE as a boolean (false where it is none); any other
/// answer turns responsiveness off.
pub open spec fn config_option_from(answer: Seq<char>, number: Seq<char>) -> ConfigOptionView {
    if has_prefix(answer, "radius"@) {
        ConfigOptionView::Radius(number)
    } else if has_prefix(answer, "responsive"@) {
        ConfigOptionView::Responsive(
            match parse_bool_text(after_first(answer, '=')) {
                Some(b) => b,
                None => false,
            },
        )
    } else {
        ConfigOptionView::Responsive(false)
    }
}

/// How a chart option is written out.
pub open spec fn config_option_text(o: ConfigOptionView) -> Seq<char> {
    match o {
        ConfigOptionView::Radius(r) => "radius : "@ + r,
        ConfigOptionView::Responsive(b) => "responsive : "@ + bool_text(b),
    }
}

pub open spec fn config_option_list() -> Seq<char> {
    "RADIUS(Rational),\n        RESPONSIVE(Boolean),"@
}

impl SumEnum for ConfigOption {
    fn list_items() -> (r: String)
        ensures
            r@ == config_option_list(),
    {
        String::from_str("RADIUS(Rational),\n        RESPONSIVE(Boolean),")
    }
}

impl ConfigOption {
    /// The chart option that an answer `name=VALUE` asks for; `number` is the
    /// shown form of VALUE read as a real number, which `radius` takes.
    pub fn from_answer(answer: &str, number: String) -> (r: ConfigOption)
        ensures
            r@ == config_option_from(answer@, number@),
    {
        if starts_with(answer, "radius") {
            ConfigOption::RADIUS(number)
        } else if starts_with(answer, "responsive") {
            ConfigOption::RESPONSIVE(
                match parse_bool(after_first_char(answer, '=')) {
                    Some(b) => b,
                    None => false,
                },
            )
        } else {
            ConfigOption::RESPONSIVE(false)
        }
    }

    /// How the option is written out.
    pub fn into_string(self) -> (r: String)
        ensures
            r@ == config_option_text(self@),
    {
        match self {
            ConfigOption::RADIUS(rad) => String::from_str("radius : ").concat(rad.as_str()),
            ConfigOption::RESPONSIVE(res) => String::from_str("responsive : ").concat(
                bool_string(res).as_str(),
            ),
        }
    }
}

/// How one attribute is drawn: an optional equation that transforms its
/// values, its colour, chart options, data-set options and kind of chart.
#[derive(Debug)]
pub struct Graph {
    pub eq: Option<String>,
    pub color: Color,
    pub config: Vec<ConfigOption>,
    pub data_config: Vec<DataSetOption>,
    pub style: GraphStyle,
}

/// A graph, its texts as character sequences.
#[verifier::ext_equal]
pub struct GraphView {
    pub eq: Option<Seq<char>>,
    pub color: Color,
    pub config: Seq<ConfigOptionView>,
    pub data_config: Seq<DataSetOptionView>,
    pub style: GraphStyle,
}

pub open spec fn config_views(v: Seq<ConfigOption>) -> Seq<ConfigOptionView> {
    v.map_values(|o: ConfigOption| o@)
}

pub open spec fn data_option_views(v: Seq<DataSetOption>) -> Seq<DataSetOptionView> {
    v.map_values(|o: DataSetOption| o@)
}

pub open spec fn eq_view(eq: Option<String>) -> Option<Seq<char>> {
    match eq {
        Some(e) => Some(e@),
        None => None,
    }
}

impl View for Graph {
    type V = GraphView;

    open spec fn view(&self) -> GraphView {
        GraphView {
            eq: eq_view(self.eq),
            color: self.color,
            config: config_views(self.config@),
            data_config: data_option_views(self.data_config@),
            style: self.style,
        }
    }
}

pub open spec fn graph_views(v: Seq<Graph>) -> Seq<GraphView> {
    v.map_values(|g: Graph| g@)
}

/// The graph of an attribute left at its default settings: no equation, the
/// given colour, radius 0 and responsiveness on, no data-set option, a line.
pub open spec fn default_graph(color: Color) -> GraphView {
    GraphView {
        eq: None,
        color: color,
        config: seq![ConfigOptionView::Radius("0"@), ConfigOptionView::Responsive(true)],
        data_config: Seq::<DataSetOptionView>::empty(),
        style: GraphStyle::LINE,
    }
}

impl Default for Graph {
    /// The default settings, in a random colour.
    fn default() -> (g: Graph)
        ensures
            g@ == default_graph(g.color),
    {
        let config = vec![ConfigOption::RADIUS(String::from_str("0")), ConfigOption::RESPONSIVE(true)];
        let g = Graph {
            eq: None,
            color: Color::default(),
            config: config,
            data_config: Vec::new(),
            style: GraphStyle::LINE,
        };
        assert(config_views(g.config@) =~= default_graph(g.color).config);
        assert(data_option_views(g.data_config@) =~= Seq::<DataSetOptionView>::empty());
        g
    }
}

/// The settings of a whole file: keep only every n-th time point, and only
/// the time points within a range.
#[derive(Debug, Clone)]
pub struct FileConfig {
    pub usage_rate: Option<i64>,
    pub range: Option<Range<i64>>,
}

impl Default for FileConfig {
    /// Every hundredth time point, whatever its time.
    fn default() -> (r: FileConfig)
        ensures
            r.usage_rate == Some(100i64),
            r.range is None,
    {
        FileConfig { usage_rate: Some(100), range: None }
    }
}

/// `|x|`.
pub open spec fn abs(x: int) -> int {
    if x < 0 {
        -x
    } else {
        x
    }
}

/// Whether the settings drop time point `p`, whose time rounds to `t`: with a
/// usage rate `x`, a point whose position is no multiple of `x` goes, and so
/// does, with a range, a point whose time falls outside it. Without a usage
/// rate nothing goes, whatever the range.
pub open spec fn drops(c: FileConfig, p: int, t: i64) -> bool {
    match c.usage_rate {
        None => false,
        Some(x) => p % abs(x as int) != 0 || match c.range {
            None => false,
            Some(r) => !(r.start <= t && t < r.end),
        },
    }
}

/// What remains of a column once the settings have dropped their time
/// points; `times` holds the rounded time of each time point, and a cell past
/// the last time point stays.
pub open spec fn kept<T>(col: Seq<T>, c: FileConfig, times: Seq<i64>) -> Seq<T>
    decreases col.len(),
{
    if col.len() == 0 {
        Seq::<T>::empty()
    } else {
        let earlier = kept(col.drop_last(), c, times);
        let p = col.len() - 1;
        if p < times.len() && drops(c, p, times[p]) {
            earlier
        } else {
            earlier.push(col.last())
        }
    }
}

impl FileConfig {
    /// Whether the settings drop time point `p`, whose time rounds to `t`.
    fn drops_point(&self, p: usize, t: i64) -> (r: bool)
        requires
            self.usage_rate != Some(0i64),
        ensures
            r == drops(*self, p as int, t),
    {
        match &self.usage_rate {
            None => false,
            Some(x) => {
                let x = *x;
                let m: u64 = if x < 0 {
                    if x == i64::MIN {
                        0x8000_0000_0000_0000u64
                    } else {
                        (-x) as u64
                    }
                } else {
                    x as u64
                };
                if (p as u64) % m != 0 {
                    true
                } else {
                    match &self.range {
                        None => false,
                        Some(r) => !(r.start <= t && t < r.end),
                    }
                }
            },
        }
    }

    /// The data with the time points that the settings drop taken out of
    /// every column. Column 0 holds the time points; `rounded_times` holds
    /// the time of each, rounded to an integer (times are real numbers, which
    /// the caller rounds).
    pub fn data_adapter<T: Copy>(&self, data: Vec<Vec<T>>, rounded_times: &Vec<i64>) -> (r: Vec<
        Vec<T>,
    >)
        requires
            data.len() >= 1,
            rounded_times.len() == data[0].len(),
            data[0].len() <= i64::MAX,
            data[0].len() > 0 ==> self.usage_rate != Some(0i64),
        ensures
            r.len() == data.len(),
            forall|k: int|
                0 <= k < r.len() ==> #[trigger] r@[k]@ == kept(data@[k]@, *self, rounded_times@),
    {
        let n0 = data[0].len();
        let mut dropped: Vec<bool> = Vec::new();
        let mut p: usize = 0;
        while p < n0
            invariant
                p <= n0,
                n0 == data[0].len(),
                n0 == rounded_times.len(),
                n0 > 0 ==> self.usage_rate != Some(0i64),
                dropped.len() == p,
                forall|q: int| 0 <= q < p ==> #[trigger] dropped@[q] == drops(*self, q, rounded_times@[q]),
            decreases n0 - p,
        {
            dropped.push(self.drops_point(p, rounded_times[p]));
            p = p + 1;
        }
        let mut cp: Vec<Vec<T>> = Vec::new();
        let mut k: usize = 0;
        while k < data.len()
            invariant
                k <= data.len(),
                cp.len() == k,
                dropped.len() == rounded_times.len(),
                forall|q: int| 0 <= q < dropped.len() ==> #[trigger] dropped@[q] == drops(*self, q, rounded_times@[q]),
                forall|j: int| 0 <= j < k ==> #[trigger] cp@[j]@ == kept(data@[j]@, *self, rounded_times@),
            decreases data.len() - k,
        {
            let mut out: Vec<T> = Vec::new();
            let mut i: usize = 0;
            while i < data[k].len()
                invariant
                    k < data.len(),
                    i <= data[k as int].len(),
                    dropped.len() == rounded_times.len(),
                    forall|q: int| 0 <= q < dropped.len() ==> #[trigger] dropped@[q] == drops(*self, q, rounded_times@[q]),
                    out@ == kept(data@[k as int]@.take(i as int), *self, rounded_times@),
                decreases data[k as int].len() - i,
            {
                proof {
                    let col = data@[k as int]@;
                    assert(col.take(i + 1).drop_last() =~= col.take(i as int));
                }
                if i >= dropped.len() || !dropped[i] {
                    out.push(data[k][i]);
                }
                i = i + 1;
            }
            assert(data@[k as int]@.take(i as int) =~= data@[k as int]@);
            cp.push(out);
            k = k + 1;
        }
        cp
    }
}

/// What the questionary settles: one graph per attribute, and the file's
/// settings.
#[derive(Debug)]
pub struct BuildHandle {
    pub nodes: Vec<Graph>,
    pub config: FileConfig,
}

/// A build handle, its texts as character sequences.
#[verifier::ext_equal]
pub struct BuildHandleView {
    pub nodes: Seq<GraphView>,
    pub config: FileConfig,
}

impl View for BuildHandle {
    type V = BuildHandleView;

    open spec fn view(&self) -> BuildHandleView {
        BuildHandleView { nodes: graph_views(self.nodes@), config: self.config }
    }
}

/// Where the questionary stands: which question (or message) it has put last.
#[derive(Debug, Clone, Copy, PartialEq, Eq, Structural)]
pub enum Stage {
    /// It has shown which attribute comes next.
    Greeting,
    /// It has asked whether the attribute keeps the default settings.
    AskDefault,
    /// It has asked for the kind of chart.
    Style,
    /// It has asked for the colour.
    ColorChoice,
    /// It has asked whether one more chart option follows.
    MoreConfig,
    /// It has asked for a chart option.
    Config,
    /// It has asked for the number in the chart option just given.
    ConfigNumber,
    /// It has asked whether one more data-set option follows.
    MoreDataConfig,
    /// It has asked for a data-set option.
    DataConfig,
    /// It has asked for the number in the data-set option just given.
    DataConfigNumber,
    /// It has asked whether an equation transforms the values.
    EquationWanted,
    /// It has asked for the equation.
    Equation,
    /// It has asked whether a time range applies.
    RangeWanted,
    /// It has asked for the time range.
    Range,
    /// It has asked whether a usage rate applies.
    UsageWanted,
    /// It has asked for the usage rate.
    Usage,
    /// It has shown that the attribute is settled.
    Farewell,
    /// Every attribute is settled.
    Done,
}

/// What the questionary needs done before it can go on.
pub enum Action {
    /// Show this line; the reply is ignored.
    Say(String),
    /// Show this question and reply with the line that the user types, its
    /// line break and other trailing control characters taken off.
    Ask(String),
    /// Read this text as a real number (0 where it is none) and reply with
    /// the decimal text that shows that number.
    ReadNumber(String),
    /// Nothing: the questionary is over.
    Finished,
}

#[verifier::ext_equal]
pub enum ActionView {
    Say(Seq<char>),
    Ask(Seq<char>),
    ReadNumber(Seq<char>),
    Finished,
}

impl View for Action {
    type V = ActionView;

    open spec fn view(&self) -> ActionView {
        match self {
            Action::Say(s) => ActionView::Say(s@),
            Action::Ask(s) => ActionView::Ask(s@),
            Action::ReadNumber(s) => ActionView::ReadNumber(s@),
            Action::Finished => ActionView::Finished,
        }
    }
}

/// The questionary's state, its texts as character sequences.
#[verifier::ext_equal]
pub struct QuestionaryView {
    pub attrs: Seq<Seq<char>>,
    pub file: Seq<char>,
    pub index: nat,
    pub stage: Stage,
    pub graphs: Seq<GraphView>,
    pub file_config: FileConfig,
    pub style: GraphStyle,
    pub color: Color,
    pub configs: Seq<ConfigOptionView>,
    pub data_configs: Seq<DataSetOptionView>,
    pub pending: Seq<char>,
}

/// The stages in which the current attribute's graph is already built.
pub open spec fn graph_built(stage: Stage) -> bool {
    stage == Stage::RangeWanted || stage == Stage::Range || stage == Stage::UsageWanted || stage
        == Stage::Usage || stage == Stage::Farewell
}

impl QuestionaryView {
    /// The questionary's bookkeeping: it works on attribute `index`, is done
    /// exactly when no attribute is left, and holds one graph for each
    /// attribute before the current one, and for the current one once built.
    pub open spec fn wf(self) -> bool {
        &&& self.index <= self.attrs.len()
        &&& (self.stage == Stage::Done <==> self.index == self.attrs.len())
        &&& self.graphs.len() == self.index + if graph_built(self.stage) {
            1int
        } else {
            0int
        }
    }

    /// The graph that the answers given for the current attribute make.
    pub open spec fn current_graph(self, eq: Option<Seq<char>>) -> GraphView {
        GraphView {
            eq: eq,
            color: self.color,
            config: self.configs,
            data_config: self.data_configs,
            style: self.style,
        }
    }
}

pub open spec fn greeting(attr: Seq<char>, file: Seq<char>) -> Seq<char> {
    "Settings for attribute "@ + attr + " in file "@ + file
}

pub open spec fn farewell(attr: Seq<char>) -> Seq<char> {
    "finished for attr "@ + attr
}

pub open spec fn default_question() -> Seq<char> {
    "Default settings ? (y/n)"@
}

pub open spec fn style_question() -> Seq<char> {
    "Graph style options are : "@ + style_list()
        + " .Everything must be given lowercase and underscores must be removed. (if you fuck up it will choose line)"@
}

pub open spec fn color_question() -> Seq<char> {
    "Choose a color for your graph help https://www.google.com/search?client=firefox-b-d&q=Hex+color+picker . Format 'R,G,B'"@
}

pub open spec fn config_question() -> Seq<char> {
    "Config options are "@ + config_option_list() + ". Format type lowercase => type=VALUE"@
}

pub open spec fn more_config_question() -> Seq<char> {
    "Do you want to choose a config setting (y/n)"@
}

pub open spec fn data_config_question() -> Seq<char> {
    "Data config options are "@ + data_option_list() + ". Format type lowercase => type=VALUE"@
}

pub open spec fn more_data_config_question() -> Seq<char> {
    "Do you want to choose a data config setting (y/n)"@
}

pub open spec fn equation_wanted_question() -> Seq<char> {
    "Equation (y/n)"@
}

pub open spec fn equation_question() -> Seq<char> {
    "A equation is going to manipulate the data ex. =>  x*5'"@
}

pub open spec fn range_wanted_question() -> Seq<char> {
    "Range (y/n)"@
}

pub open spec fn range_question() -> Seq<char> {
    "Give parameters => Format 'time_min,time_max'"@
}

pub open spec fn usage_wanted_question() -> Seq<char> {
    "Usage Rate (y/n)"@
}

pub open spec fn usage_question() -> Seq<char> {
    "Usage Rate format n'th point"@
}

/// The integer that a text writes, or 0 where it writes none.
pub open spec fn i64_or_zero(s: Seq<char>) -> i64 {
    match parse_i64_text(s) {
        Some(v) => v as i64,
        None => 0,
    }
}

/// The time range that an answer `time_min,time_max` gives: an unreadable
/// bound is 0, and without a comma both are.
pub open spec fn range_from_text(s: Seq<char>) -> Range<i64> {
    match split_once(s, ',') {
        Some(parts) => Range { start: i64_or_zero(parts.0), end: i64_or_zero(parts.1) },
        None => Range { start: 0, end: 0 },
    }
}

/// Moves on to attribute `index`: shows it, or ends where none is left.
pub open spec fn enter_attr(m: QuestionaryView, index: nat) -> (QuestionaryView, ActionView) {
    if index < m.attrs.len() {
        (
            QuestionaryView { index: index, stage: Stage::Greeting, ..m },
            ActionView::Say(greeting(m.attrs[index as int], m.file)),
        )
    } else {
        (QuestionaryView { index: index, stage: Stage::Done, ..m }, ActionView::Finished)
    }
}

/// One step of the questionary: the state and action that follow the reply
/// `reply` to the last action in state `m`; `drawn` is the colour drawn for
/// an attribute that keeps the default settings.
pub open spec fn next(m: QuestionaryView, reply: Seq<char>, drawn: Color) -> (
    QuestionaryView,
    ActionView,
) {
    match m.stage {
        Stage::Greeting => (
            QuestionaryView { stage: Stage::AskDefault, ..m },
            ActionView::Ask(default_question()),
        ),
        Stage::AskDefault => if reply == "y"@ {
            enter_attr(QuestionaryView { graphs: m.graphs.push(default_graph(drawn)), ..m }, m.index + 1)
        } else {
            (QuestionaryView { stage: Stage::Style, ..m }, ActionView::Ask(style_question()))
        },
        Stage::Style => (
            QuestionaryView { style: style_from_text(reply), stage: Stage::ColorChoice, ..m },
            ActionView::Ask(color_question()),
        ),
        Stage::ColorChoice => (
            QuestionaryView {
                color: color_from_text(reply),
                configs: Seq::<ConfigOptionView>::empty(),
                stage: Stage::MoreConfig,
                ..m
            },
            ActionView::Ask(more_config_question()),
        ),
        Stage::MoreConfig => if reply == "n"@ {
            (
                QuestionaryView {
                    data_configs: Seq::<DataSetOptionView>::empty(),
                    stage: Stage::MoreDataConfig,
                    ..m
                },
                ActionView::Ask(more_data_config_question()),
            )
        } else {
            (QuestionaryView { stage: Stage::Config, ..m }, ActionView::Ask(config_question()))
        },
        Stage::Config => (
            QuestionaryView { pending: reply, stage: Stage::ConfigNumber, ..m },
            ActionView::ReadNumber(after_first(reply, '=')),
        ),
        Stage::ConfigNumber => (
            QuestionaryView {
                configs: m.configs.push(config_option_from(m.pending, reply)),
                stage: Stage::MoreConfig,
                ..m
            },
            ActionView::Ask(more_config_question()),
        ),
        Stage::MoreDataConfig => if reply == "n"@ {
            (
                QuestionaryView { stage: Stage::EquationWanted, ..m },
                ActionView::Ask(equation_wanted_question()),
            )
        } else {
            (
                QuestionaryView { stage: Stage::DataConfig, ..m },
                ActionView::Ask(data_config_question()),
            )
        },
        Stage::DataConfig => (
            QuestionaryView { pending: reply, stage: Stage::DataConfigNumber, ..m },
            ActionView::ReadNumber(after_first(reply, '=')),
        ),
        Stage::DataConfigNumber => (
            QuestionaryView {
                data_configs: m.data_configs.push(data_option_from(m.pending, reply)),
                stage: Stage::MoreDataConfig,
                ..m
            },
            ActionView::Ask(more_data_config_question()),
        ),
        Stage::EquationWanted => if reply == "y"@ {
            (
                QuestionaryView { stage: Stage::Equation, ..m },
                ActionView::Ask(equation_question()),
            )
        } else {
            (
                QuestionaryView {
                    graphs: m.graphs.push(m.current_graph(None)),
                    configs: Seq::<ConfigOptionView>::empty(),
                    data_configs: Seq::<DataSetOptionView>::empty(),
                    stage: Stage::RangeWanted,
                    ..m
                },
                ActionView::Ask(range_wanted_question()),
            )
        },
        Stage::Equation => (
            QuestionaryView {
                graphs: m.graphs.push(m.current_graph(Some(reply))),
                configs: Seq::<ConfigOptionView>::empty(),
                data_configs: Seq::<DataSetOptionView>::empty(),
                stage: Stage::RangeWanted,
                ..m
            },
            ActionView::Ask(range_wanted_question()),
        ),
        Stage::RangeWanted => if reply == "y"@ {
            (QuestionaryView { stage: Stage::Range, ..m }, ActionView::Ask(range_question()))
        } else {
            (
                QuestionaryView { stage: Stage::UsageWanted, ..m },
                ActionView::Ask(usage_wanted_question()),
            )
        },
        Stage::Range => (
            QuestionaryView {
                file_config: FileConfig {
                    range: Some(range_from_text(reply)),
                    ..m.file_config
                },
                stage: Stage::UsageWanted,
                ..m
            },
            ActionView::Ask(usage_wanted_question()),
        ),
        Stage::UsageWanted => if reply == "y"@ {
            (QuestionaryView { stage: Stage::Usage, ..m }, ActionView::Ask(usage_question()))
        } else {
            (
                QuestionaryView { stage: Stage::Farewell, ..m },
                ActionView::Say(farewell(m.attrs[m.index as int])),
            )
        },
        Stage::Usage => (
            QuestionaryView {
                file_config: FileConfig {
                    usage_rate: Some(i64_or_zero(reply)),
                    ..m.file_config
                },
                stage: Stage::Farewell,
                ..m
            },
            ActionView::Say(farewell(m.attrs[m.index as int])),
        ),
        Stage::Farewell => enter_attr(m, m.index + 1),
        Stage::Done => (m, ActionView::Finished),
    }
}

/// The state in which a questionary on `attrs` of `file` starts, before it
/// moves to the first attribute.
pub open spec fn start_view(attrs: Seq<Seq<char>>, file: Seq<char>) -> QuestionaryView {
    QuestionaryView {
        attrs: attrs,
        file: file,
        index: 0,
        stage: Stage::Greeting,
        graphs: Seq::<GraphView>::empty(),
        file_config: FileConfig { usage_rate: Some(100i64), range: None },
        style: GraphStyle::LINE,
        color: Color(0, 0, 0),
        configs: Seq::<ConfigOptionView>::empty(),
        data_configs: Seq::<DataSetOptionView>::empty(),
        pending: Seq::<char>::empty(),
    }
}

/// The colour of the last graph, which is the one drawn where a step adds a
/// default graph.
pub open spec fn drawn_color(m: QuestionaryView) -> Color {
    if m.graphs.len() > 0 {
        m.graphs.last().color
    } else {
        Color(0, 0, 0)
    }
}

/// The questions that settle how each attribute of a file is drawn and which
/// of the file's time points are kept. It is driven from outside: each step
/// takes the reply to the action it asked for last and names the next one.
pub struct Questionary {
    attrs: Vec<String>,
    file: String,
    index: usize,
    stage: Stage,
    graphs: Vec<Graph>,
    file_config: FileConfig,
    style: GraphStyle,
    color: Color,
    configs: Vec<ConfigOption>,
    data_configs: Vec<DataSetOption>,
    pending: String,
}

impl View for Questionary {
    type V = QuestionaryView;

    closed spec fn view(&self) -> QuestionaryView {
        QuestionaryView {
            attrs: crate::text::string_views(self.attrs@),
            file: self.file@,
            index: self.index as nat,
            stage: self.stage,
            graphs: graph_views(self.graphs@),
            file_config: self.file_config,
            style: self.style,
            color: self.color,
            configs: config_views(self.configs@),
            data_configs: data_option_views(self.data_configs@),
            pending: self.pending@,
        }
    }
}

fn concat3(a: &str, b: &str, c: &str) -> (r: String)
    ensures
        r@ == a@ + b@ + c@,
{
    String::from_str(a).concat(b).concat(c)
}

impl Questionary {
    /// A questionary on the attributes `attrs` of the file `file`, and its
    /// first action.
    pub fn new(attrs: Vec<String>, file: String) -> (r: (Questionary, Action))
        ensures
            r.0@.wf(),
            (r.0@, r.1@) == enter_attr(start_view(crate::text::string_views(attrs@), file@), 0),
    {
        let mut q = Questionary {
            attrs: attrs,
            file: file,
            index: 0,
            stage: Stage::Greeting,
            graphs: Vec::new(),
            file_config: FileConfig::default(),
            style: GraphStyle::LINE,
            color: Color(0, 0, 0),
            configs: Vec::new(),
            data_configs: Vec::new(),
            pending: String::new(),
        };
        assert(q@.attrs =~= crate::text::string_views(attrs@));
        assert(q@.graphs =~= Seq::<GraphView>::empty());
        assert(q@.configs =~= Seq::<ConfigOptionView>::empty());
        assert(q@.data_configs =~= Seq::<DataSetOptionView>::empty());
        assert(q@.file_config == FileConfig { usage_rate: Some(100i64), range: None });
        assert(q@ =~~= start_view(crate::text::string_views(attrs@), file@));
        let a = q.move_to(0);
        (q, a)
    }

    /// Whether every attribute is settled.
    pub fn is_done(&self) -> (r: bool)
        ensures
            r == (self@.stage == Stage::Done),
    {
        self.stage == Stage::Done
    }

    /// What the answers settled: the graphs and the file's settings.
    pub fn into_handle(self) -> (h: BuildHandle)
        ensures
            h@ == (BuildHandleView { nodes: self@.graphs, config: self@.file_config }),
    {
        BuildHandle { nodes: self.graphs, config: self.file_config }
    }

    fn move_to(&mut self, index: usize) -> (a: Action)
        requires
            index <= old(self).attrs.len(),
        ensures
            (final(self)@, a@) == enter_attr(old(self)@, index as nat),
    {
        self.index = index;
        if index < self.attrs.len() {
            self.stage = Stage::Greeting;
            let msg = String::from_str("Settings for attribute ").concat(
                self.attrs[index].as_str(),
            ).concat(" in file ").concat(self.file.as_str());
            Action::Say(msg)
        } else {
            self.stage = Stage::Done;
            Action::Finished
        }
    }

    /// Moves the graph that the current answers make into the list.
    fn push_current(&mut self, eq: Option<String>)
        ensures
            final(self)@ == (QuestionaryView {
                graphs: old(self)@.graphs.push(old(self)@.current_graph(eq_view(eq))),
                configs: Seq::<ConfigOptionView>::empty(),
                data_configs: Seq::<DataSetOptionView>::empty(),
                ..old(self)@
            }),
    {
        let mut configs: Vec<ConfigOption> = Vec::new();
        std::mem::swap(&mut configs, &mut self.configs);
        let mut data_configs: Vec<DataSetOption> = Vec::new();
        std::mem::swap(&mut data_configs, &mut self.data_configs);
        let g = Graph {
            eq: eq,
            color: self.color,
            config: configs,
            data_config: data_configs,
            style: self.style,
        };
        self.graphs.push(g);
        assert(graph_views(self.graphs@) =~= graph_views(old(self).graphs@).push(g@));
        assert(config_views(self.configs@) =~= Seq::<ConfigOptionView>::empty());
        assert(data_option_views(self.data_configs@) =~= Seq::<DataSetOptionView>::empty());
        assert(self@ =~~= QuestionaryView {
            graphs: old(self)@.graphs.push(old(self)@.current_graph(eq_view(eq))),
            configs: Seq::<ConfigOptionView>::empty(),
            data_configs: Seq::<DataSetOptionView>::empty(),
            ..old(self)@
        });
    }

    /// Takes the reply to the last action and names the next one.
    pub fn step(&mut self, reply: String) -> (a: Action)
        requires
            old(self)@.wf(),
        ensures
            final(self)@.wf(),
            (final(self)@, a@) == next(old(self)@, reply@, drawn_color(final(self)@)),
            old(self)@.graphs.len() <= final(self)@.graphs.len() <= old(self)@.graphs.len() + 1,
            final(self)@.graphs.subrange(0, old(self)@.graphs.len() as int) == old(self)@.graphs,
            final(self)@.graphs.len() > old(self)@.graphs.len() ==> old(self)@.graphs.len()
                == old(self)@.index,
            a@ is Finished ==> final(self)@.stage == Stage::Done && final(self)@.graphs.len()
                == final(self)@.attrs.len(),
    {
        assert(self@.attrs.len() == self.attrs.len());
        let a = match self.stage {
            Stage::Greeting => {
                self.stage = Stage::AskDefault;
                Action::Ask(String::from_str("Default settings ? (y/n)"))
            },
            Stage::AskDefault => {
                if crate::text::str_eq(reply.as_str(), "y") {
                    let g = Graph::default();
                    self.graphs.push(g);
                    assert(graph_views(self.graphs@) =~= graph_views(old(self).graphs@).push(g@));
                    let next_index = self.index + 1;
                    self.move_to(next_index)
                } else {
                    self.stage = Stage::Style;
                    Action::Ask(
                        concat3(
                            "Graph style options are : ",
                            GraphStyle::list_items().as_str(),
                            " .Everything must be given lowercase and underscores must be removed. (if you fuck up it will choose line)",
                        ),
                    )
                }
            },
            Stage::Style => {
                self.style = GraphStyle::from_text(reply.as_str());
                self.stage = Stage::ColorChoice;
                Action::Ask(
                    String::from_str(
                        "Choose a color for your graph help https://www.google.com/search?client=firefox-b-d&q=Hex+color+picker . Format 'R,G,B'",
                    ),
                )
            },
            Stage::ColorChoice => {
                self.color = Color::from_text(reply.as_str());
                self.configs = Vec::new();
                self.stage = Stage::MoreConfig;
                Action::Ask(String::from_str("Do you want to choose a config setting (y/n)"))
            },
            Stage::MoreConfig => {
                if crate::text::str_eq(reply.as_str(), "n") {
                    self.data_configs = Vec::new();
                    self.stage = Stage::MoreDataConfig;
                    Action::Ask(String::from_str("Do you want to choose a data config setting (y/n)"))
                } else {
                    self.stage = Stage::Config;
                    Action::Ask(
                        concat3(
                            "Config options are ",
                            ConfigOption::list_items().as_str(),
                            ". Format type lowercase => type=VALUE",
                        ),
                    )
                }
            },
            Stage::Config => {
                let value = String::from_str(after_first_char(reply.as_str(), '='));
                self.pending = reply;
                self.stage = Stage::ConfigNumber;
                Action::ReadNumber(value)
            },
            Stage::ConfigNumber => {
                let o = ConfigOption::from_answer(self.pending.as_str(), reply);
                self.configs.push(o);
                assert(config_views(self.configs@) =~= config_views(old(self).configs@).push(o@));
                self.stage = Stage::MoreConfig;
                Action::Ask(String::from_str("Do you want to choose a config setting (y/n)"))
            },
            Stage::MoreDataConfig => {
                if crate::text::str_eq(reply.as_str(), "n") {
                    self.stage = Stage::EquationWanted;
                    Action::Ask(String::from_str("Equation (y/n)"))
                } else {
                    self.stage = Stage::DataConfig;
                    Action::Ask(
                        concat3(
                            "Data config options are ",
                            DataSetOption::list_items().as_str(),
                            ". Format type lowercase => type=VALUE",
                        ),
                    )
                }
            },
            Stage::DataConfig => {
                let value = String::from_str(after_first_char(reply.as_str(), '='));
                self.pending = reply;
                self.stage = Stage::DataConfigNumber;
                Action::ReadNumber(value)
            },
            Stage::DataConfigNumber => {
                let o = DataSetOption::from_answer(self.pending.as_str(), reply);
                self.data_configs.push(o);
                assert(data_option_views(self.data_configs@) =~= data_option_views(
                    old(self).data_configs@,
                ).push(o@));
                self.stage = Stage::MoreDataConfig;
                Action::Ask(String::from_str("Do you want to choose a data config setting (y/n)"))
            },
            Stage::EquationWanted => {
                if crate::text::str_eq(reply.as_str(), "y") {
                    self.stage = Stage::Equation;
                    Action::Ask(
                        String::from_str("A equation is going to manipulate the data ex. =>  x*5'"),
                    )
                } else {
                    self.push_current(None);
                    self.stage = Stage::RangeWanted;
                    Action::Ask(String::from_str("Range (y/n)"))
                }
            },
            Stage::Equation => {
                self.push_current(Some(reply));
                self.stage = Stage::RangeWanted;
                Action::Ask(String::from_str("Range (y/n)"))
            },
            Stage::RangeWanted => {
                if crate::text::str_eq(reply.as_str(), "y") {
                    self.stage = Stage::Range;
                    Action::Ask(String::from_str("Give parameters => Format 'time_min,time_max'"))
                } else {
                    self.stage = Stage::UsageWanted;
                    Action::Ask(String::from_str("Usage Rate (y/n)"))
                }
            },
            Stage::Range => {
                self.file_config.range = Some(range_from_answer(reply.as_str()));
                self.stage = Stage::UsageWanted;
                Action::Ask(String::from_str("Usage Rate (y/n)"))
            },
            Stage::UsageWanted => {
                if crate::text::str_eq(reply.as_str(), "y") {
                    self.stage = Stage::Usage;
                    Action::Ask(String::from_str("Usage Rate format n'th point"))
                } else {
                    self.stage = Stage::Farewell;
                    Action::Say(
                        String::from_str("finished for attr ").concat(
                            self.attrs[self.index].as_str(),
                        ),
                    )
                }
            },
            Stage::Usage => {
                self.file_config.usage_rate = Some(i64_or_zero_of(reply.as_str()));
                self.stage = Stage::Farewell;
                Action::Say(
                    String::from_str("finished for attr ").concat(self.attrs[self.index].as_str()),
                )
            },
            Stage::Farewell => {
                let next_index = self.index + 1;
                self.move_to(next_index)
            },
            Stage::Done => Action::Finished,
        };
        assert((self@, a@) =~~= next(old(self)@, reply@, drawn_color(self@)));
        proof {
            law_graphs_kept_in_attribute_order(old(self)@, reply@, drawn_color(self@));
        }
        a
    }
}

/// The integer that a text writes, or 0 where it writes none:
/// `s.parse::<i64>().unwrap_or(0)`.
fn i64_or_zero_of(s: &str) -> (r: i64)
    ensures
        r == i64_or_zero(s@),
{
    match parse_i64(s) {
        Some(v) => v,
        None => 0,
    }
}

/// The time range that an answer `time_min,time_max` gives.
fn range_from_answer(s: &str) -> (r: Range<i64>)
    ensures
        r == range_from_text(s@),
{
    match split_once_char(s, ',') {
        Some(parts) => Range { start: i64_or_zero_of(parts.0), end: i64_or_zero_of(parts.1) },
        None => {
            proof {
                reveal_strlit("");
            }
            Range { start: 0, end: 0 }
        },
    }
}

/// A colour written in the `R,G,B` form that the questionary asks for reads
/// back as that colour.
pub proof fn law_color_text_reads_back(c: Color)
    ensures
        color_from_text(decimal(c.0 as nat) + ","@ + decimal(c.1 as nat) + ","@ + decimal(
            c.2 as nat,
        )) == c,
{
    reveal_strlit(",");
    let r = decimal(c.0 as nat);
    let g = decimal(c.1 as nat);
    let b = decimal(c.2 as nat);
    lemma_decimal(c.0 as nat);
    lemma_decimal(c.1 as nat);
    lemma_decimal(c.2 as nat);
    crate::text::law_decimal_parses_back(c.0 as nat, 255);
    crate::text::law_decimal_parses_back(c.1 as nat, 255);
    crate::text::law_decimal_parses_back(c.2 as nat, 255);
    let text = r + ","@ + g + ","@ + b;
    assert(text =~= (r + seq![','] + g) + seq![','] + b);
    lemma_split_concat(r + seq![','] + g, b, ',');
    lemma_split_concat(r, g, ',');
    lemma_split_no_sep(r, ',');
    lemma_split_no_sep(g, ',');
    lemma_split_no_sep(b, ',');
    let fields = split(text, ',');
    assert(fields =~= seq![r, g, b]);
}

/// Every kind of chart but the polar area reads back from the name that the
/// chart library knows it by. (The polar area's name, `polarArea`, is not
/// the `polar_area` that the questionary accepts, and reads as a line.)
pub proof fn law_style_name_reads_back(style: GraphStyle)
    requires
        style != GraphStyle::POLAR_AREA,
    ensures
        style_from_text(style_name(style)) == style,
{
    reveal_strlit("bar");
    reveal_strlit("line");
    reveal_strlit("bubble");
    reveal_strlit("doughnut");
    reveal_strlit("pie");
    reveal_strlit("polar_area");
    reveal_strlit("radar");
    assert(ascii_lower("pie"@[0]) != ascii_lower("bar"@[0]));
}

proof fn lemma_eq_ignoring_case_swap(a: Seq<char>, b: Seq<char>, c: Seq<char>)
    requires
        eq_ignoring_ascii_case(a, b),
    ensures
        eq_ignoring_ascii_case(a, c) == eq_ignoring_ascii_case(b, c),
{
    if eq_ignoring_ascii_case(a, c) {
        assert forall|i: int| 0 <= i < b.len() implies ascii_lower(b[i]) == ascii_lower(c[i]) by {
            assert(ascii_lower(a[i]) == ascii_lower(b[i]));
            assert(ascii_lower(a[i]) == ascii_lower(c[i]));
        }
    }
    if eq_ignoring_ascii_case(b, c) {
        assert forall|i: int| 0 <= i < a.len() implies ascii_lower(a[i]) == ascii_lower(c[i]) by {
            assert(ascii_lower(a[i]) == ascii_lower(b[i]));
            assert(ascii_lower(b[i]) == ascii_lower(c[i]));
        }
    }
}

/// The kind of chart that an answer names does not depend on the case of its
/// ASCII letters.
pub proof fn law_style_ignores_case(a: Seq<char>, b: Seq<char>)
    requires
        eq_ignoring_ascii_case(a, b),
    ensures
        style_from_text(a) == style_from_text(b),
{
    lemma_eq_ignoring_case_swap(a, b, "bar"@);
    lemma_eq_ignoring_case_swap(a, b, "line"@);
    lemma_eq_ignoring_case_swap(a, b, "bubble"@);
    lemma_eq_ignoring_case_swap(a, b, "doughnut"@);
    lemma_eq_ignoring_case_swap(a, b, "pie"@);
    lemma_eq_ignoring_case_swap(a, b, "polar_area"@);
    lemma_eq_ignoring_case_swap(a, b, "radar"@);
}

/// Settings that drop no time point keep every column as it is; so do
/// settings without a usage rate, whatever their range.
pub proof fn law_nothing_dropped_keeps_columns<T>(col: Seq<T>, c: FileConfig, times: Seq<i64>)
    requires
        c.usage_rate is None || (forall|p: int|
            0 <= p < col.len() && p < times.len() ==> !drops(c, p, #[trigger] times[p])),
    ensures
        kept(col, c, times) == col,
    decreases col.len(),
{
    if col.len() > 0 {
        law_nothing_dropped_keeps_columns(col.drop_last(), c, times);
        assert(col.drop_last().push(col.last()) =~= col);
    }
}

/// Settings that keep every time point (usage rate 1 or -1, no range) leave
/// each column as it is.
pub proof fn law_rate_one_keeps_columns<T>(col: Seq<T>, times: Seq<i64>, rate: i64)
    requires
        rate == 1 || rate == -1,
    ensures
        kept(col, FileConfig { usage_rate: Some(rate), range: None }, times) == col,
{
    law_nothing_dropped_keeps_columns(col, FileConfig { usage_rate: Some(rate), range: None }, times);
}

/// Dropping time points keeps the columns aligned: two columns of one length
/// keep equally many cells, and none grows.
pub proof fn law_columns_stay_aligned<T, U>(a: Seq<T>, b: Seq<U>, c: FileConfig, times: Seq<i64>)
    requires
        a.len() == b.len(),
    ensures
        kept(a, c, times).len() == kept(b, c, times).len(),
        kept(a, c, times).len() <= a.len(),
    decreases a.len(),
{
    if a.len() > 0 {
        law_columns_stay_aligned(a.drop_last(), b.drop_last(), c, times);
    }
}

/// With the default settings (every hundredth time point, no range), a column
/// of `n` cells that all fall on time points keeps `ceil(n / 100)` of them,
/// the cells at positions 0, 100, 200, …
pub proof fn law_default_keeps_every_hundredth<T>(col: Seq<T>, times: Seq<i64>)
    requires
        col.len() <= times.len(),
    ensures
        kept(col, FileConfig { usage_rate: Some(100i64), range: None }, times).len() == (col.len()
            + 99) / 100,
        forall|j: int|
            0 <= j < kept(col, FileConfig { usage_rate: Some(100i64), range: None }, times).len()
                ==> #[trigger] kept(col, FileConfig { usage_rate: Some(100i64), range: None }, times)[j]
                == col[100 * j],
    decreases col.len(),
{
    let c = FileConfig { usage_rate: Some(100i64), range: None };
    if col.len() > 0 {
        let t = col.drop_last();
        law_default_keeps_every_hundredth(t, times);
        let n = t.len() as int;
        assert(abs(100) == 100);
        if n % 100 == 0 {
            assert((n + 1 + 99) / 100 == (n + 99) / 100 + 1) by (nonlinear_arith)
                requires
                    n % 100 == 0,
                    n >= 0,
            ;
            assert(100 * ((n + 99) / 100) == n) by (nonlinear_arith)
                requires
                    n % 100 == 0,
                    n >= 0,
            ;
        } else {
            assert((n + 1 + 99) / 100 == (n + 99) / 100) by (nonlinear_arith)
                requires
                    n % 100 != 0,
                    n >= 0,
            ;
        }
    }
}

/// Every attribute gets exactly one graph: once the questionary is done, it
/// holds as many graphs as attributes.
pub proof fn law_one_graph_per_attribute(m: QuestionaryView)
    requires
        m.wf(),
        m.stage == Stage::Done,
    ensures
        m.graphs.len() == m.attrs.len(),
{
}

/// A usage rate and its negation keep the same cells: only the rate's size
/// counts.
pub proof fn law_rate_sign_does_not_matter<T>(
    col: Seq<T>,
    times: Seq<i64>,
    rate: i64,
    range: Option<Range<i64>>,
)
    requires
        rate > 0,
    ensures
        kept(col, FileConfig { usage_rate: Some((-rate) as i64), range: range }, times) == kept(
            col,
            FileConfig { usage_rate: Some(rate), range: range },
            times,
        ),
    decreases col.len(),
{
    if col.len() > 0 {
        law_rate_sign_does_not_matter(col.drop_last(), times, rate, range);
        assert(abs(((-rate) as i64) as int) == abs(rate as int));
    }
}

proof fn lemma_kept_times_in_range(times: Seq<i64>, c: FileConfig, n: int)
    requires
        0 <= n <= times.len(),
        c.usage_rate == Some(1i64) || c.usage_rate == Some(-1i64),
    ensures
        forall|q: int|
            0 <= q < kept(times.take(n), c, times).len() ==> !drops(
                c,
                q,
                #[trigger] kept(times.take(n), c, times)[q],
            ),
    decreases n,
{
    if n > 0 {
        lemma_kept_times_in_range(times, c, n - 1);
        let s = times.take(n);
        assert(s.drop_last() =~= times.take(n - 1));
        assert(s.last() == times[n - 1]);
        let k0 = kept(times.take(n - 1), c, times);
        let k = kept(s, c, times);
        lemma_rate_one_drops_by_time(c, n - 1, k0.len() as int, times[n - 1]);
        assert forall|q: int| 0 <= q < k.len() implies !drops(c, q, #[trigger] k[q]) by {
            if q < k0.len() {
                assert(k[q] == k0[q]);
            } else {
                assert(k[q] == times[n - 1]);
            }
        }
    } else {
        assert(kept(times.take(n), c, times).len() == 0);
    }
}

proof fn lemma_rate_one_drops_by_time(c: FileConfig, p: int, q: int, t: i64)
    requires
        c.usage_rate == Some(1i64) || c.usage_rate == Some(-1i64),
    ensures
        drops(c, p, t) == drops(c, q, t),
{
    assert(abs(1) == 1 && abs(-1) == 1);
    assert(p % 1 == 0 && q % 1 == 0);
}

/// With a usage rate of 1 (or -1), a second pass over what a first pass
/// kept, with the rounded times that the first pass kept, keeps everything.
pub proof fn law_rate_one_second_pass_keeps_all<T>(col: Seq<T>, c: FileConfig, times: Seq<i64>)
    requires
        c.usage_rate == Some(1i64) || c.usage_rate == Some(-1i64),
    ensures
        kept(kept(col, c, times), c, kept(times, c, times)) == kept(col, c, times),
{
    lemma_kept_times_in_range(times, c, times.len() as int);
    assert(times.take(times.len() as int) =~= times);
    let t2 = kept(times, c, times);
    let k = kept(col, c, times);
    assert forall|p: int| 0 <= p < k.len() && p < t2.len() implies !drops(c, p, #[trigger] t2[p]) by {
    }
    law_nothing_dropped_keeps_columns(k, c, t2);
}

/// The graphs are settled in the order of the attributes and never
/// reordered: a step keeps every graph settled so far, in place, and adds at
/// most one, at the position of the attribute being asked about; that graph
/// is the default one where the defaults were taken, and otherwise the one
/// that the answers for that attribute make.
pub proof fn law_graphs_kept_in_attribute_order(m: QuestionaryView, reply: Seq<char>, drawn: Color)
    requires
        m.wf(),
    ensures
        ({
            let r = next(m, reply, drawn).0;
            &&& r.attrs == m.attrs
            &&& m.graphs.len() <= r.graphs.len() <= m.graphs.len() + 1
            &&& r.graphs.subrange(0, m.graphs.len() as int) == m.graphs
            &&& r.graphs.len() > m.graphs.len() ==> {
                &&& m.graphs.len() == m.index
                &&& m.index < m.attrs.len()
                &&& r.graphs[m.index as int] == if m.stage == Stage::AskDefault {
                    default_graph(drawn)
                } else if m.stage == Stage::Equation {
                    m.current_graph(Some(reply))
                } else {
                    m.current_graph(None)
                }
            }
        }),
{
    let r = next(m, reply, drawn).0;
    assert(r.graphs.subrange(0, m.graphs.len() as int) =~= m.graphs);
}

/// With a usage rate and a range, a time point at a multiple of the rate is
/// dropped exactly when its rounded time falls outside the range.
pub proof fn law_range_decides_at_rate_multiples(c: FileConfig, p: int, t: i64)
    requires
        c.usage_rate matches Some(x) && x != 0 && p >= 0 && p % abs(x as int) == 0,
        c.range is Some,
    ensures
        drops(c, p, t) == !(c.range->0.start <= t && t < c.range->0.end),
{
}

proof fn lemma_kept_times_prefix_in_range(times: Seq<i64>, c: FileConfig, n: int)
    requires
        0 <= n <= times.len(),
        c.usage_rate is Some,
        c.range is Some,
    ensures
        forall|q: int|
            0 <= q < kept(times.take(n), c, times).len() ==> c.range->0.start <= #[trigger] kept(
                times.take(n),
                c,
                times,
            )[q] < c.range->0.end,
    decreases n,
{
    if n > 0 {
        lemma_kept_times_prefix_in_range(times, c, n - 1);
        let s = times.take(n);
        assert(s.drop_last() =~= times.take(n - 1));
        assert(s.last() == times[n - 1]);
        let k0 = kept(times.take(n - 1), c, times);
        let k = kept(s, c, times);
        assert forall|q: int| 0 <= q < k.len() implies c.range->0.start <= #[trigger] k[q]
            < c.range->0.end by {
            if q < k0.len() {
                assert(k[q] == k0[q]);
            } else {
                assert(k[q] == times[n - 1]);
            }
        }
    } else {
        assert(kept(times.take(n), c, times).len() == 0);
    }
}

/// With a usage rate and a range, every time point that is kept has its
/// rounded time inside the range.
pub proof fn law_kept_times_lie_in_range(times: Seq<i64>, c: FileConfig)
    requires
        c.usage_rate is Some,
        c.range is Some,
    ensures
        forall|q: int|
            0 <= q < kept(times, c, times).len() ==> c.range->0.start <= #[trigger] kept(
                times,
                c,
                times,
            )[q] < c.range->0.end,
{
    lemma_kept_times_prefix_in_range(times, c, times.len() as int);
    assert(times.take(times.len() as int) =~= times);
}

/// With a usage rate of 1 (or -1) and a range, a column keeps exactly the
/// cells whose time points lie within the range.
pub proof fn law_rate_one_with_range_keeps_within_range<T>(
    col: Seq<T>,
    times: Seq<i64>,
    rate: i64,
    r: Range<i64>,
)
    requires
        rate == 1 || rate == -1,
        col.len() <= times.len(),
    ensures
        kept(col, FileConfig { usage_rate: Some(rate), range: Some(r) }, times)
            == crate::file_parser::within_range(col, times, r),
    decreases col.len(),
{
    if col.len() > 0 {
        law_rate_one_with_range_keeps_within_range(col.drop_last(), times, rate, r);
        let p = col.len() - 1;
        assert(abs(rate as int) == 1);
        assert(p % 1 == 0);
    }
}

proof fn lemma_answer_parts(name: Seq<char>, value: Seq<char>)
    requires
        !name.contains('='),
    ensures
        after_first(name + "="@ + value, '=') == value,
{
    reveal_strlit("=");
    assert(name + "="@ + value == name + seq!['='] + value);
    crate::text::lemma_after_first_of(name, '=', value);
}

/// An answer `fill=B`, with B the text of a boolean, asks for that boolean.
pub proof fn law_fill_answer_reads_back(b: bool, number: Seq<char>)
    ensures
        data_option_from("fill="@ + bool_text(b), number) == DataSetOptionView::Fill(b),
{
    reveal_strlit("fill=");
    reveal_strlit("fill");
    reveal_strlit("tension");
    reveal_strlit("=");
    let a = "fill="@ + bool_text(b);
    assert("fill="@ =~= "fill"@ + "="@);
    assert(!"fill"@.contains('=')) by {
        assert(forall|i: int| 0 <= i < 4 ==> "fill"@[i] != '=');
    }
    lemma_answer_parts("fill"@, bool_text(b));
    assert(a =~= "fill"@ + "="@ + bool_text(b));
    assert(a.subrange(0, 4) =~= "fill"@);
    if a.len() >= 7 {
        assert(a.subrange(0, 7)[0] != "tension"@[0]);
    }
    crate::text::law_bool_text_reads_back(b);
}

/// An answer `order=N`, with N a decimal number, asks for that number.
pub proof fn law_order_answer_reads_back(n: u64, number: Seq<char>)
    ensures
        data_option_from("order="@ + decimal(n as nat), number) == DataSetOptionView::Order(n),
{
    reveal_strlit("order=");
    reveal_strlit("order");
    reveal_strlit("fill");
    reveal_strlit("tension");
    reveal_strlit("=");
    let a = "order="@ + decimal(n as nat);
    assert("order="@ =~= "order"@ + "="@);
    assert(!"order"@.contains('=')) by {
        assert(forall|i: int| 0 <= i < 5 ==> "order"@[i] != '=');
    }
    lemma_answer_parts("order"@, decimal(n as nat));
    assert(a =~= "order"@ + "="@ + decimal(n as nat));
    assert(a.subrange(0, 5) =~= "order"@);
    assert(a.subrange(0, 4)[0] != "fill"@[0]);
    if a.len() >= 7 {
        assert(a.subrange(0, 7)[0] != "tension"@[0]);
    }
    crate::text::law_decimal_parses_back(n as nat, u64::MAX as nat);
}

/// An answer `tension=X` asks for the tension that X reads as.
pub proof fn law_tension_answer_takes_number(x: Seq<char>, number: Seq<char>)
    ensures
        data_option_from("tension="@ + x, number) == DataSetOptionView::Tension(number),
{
    reveal_strlit("tension=");
    reveal_strlit("tension");
    assert(("tension="@ + x).subrange(0, 7) =~= "tension"@);
}

/// An answer `responsive=B`, with B the text of a boolean, asks for that
/// boolean.
pub proof fn law_responsive_answer_reads_back(b: bool, number: Seq<char>)
    ensures
        config_option_from("responsive="@ + bool_text(b), number) == ConfigOptionView::Responsive(b),
{
    reveal_strlit("responsive=");
    reveal_strlit("responsive");
    reveal_strlit("radius");
    reveal_strlit("=");
    let a = "responsive="@ + bool_text(b);
    assert("responsive="@ =~= "responsive"@ + "="@);
    assert(!"responsive"@.contains('=')) by {
        assert(forall|i: int| 0 <= i < 10 ==> "responsive"@[i] != '=');
    }
    lemma_answer_parts("responsive"@, bool_text(b));
    assert(a =~= "responsive"@ + "="@ + bool_text(b));
    assert(a.subrange(0, 10) =~= "responsive"@);
    assert(a.subrange(0, 6)[1] != "radius"@[1]);
    crate::text::law_bool_text_reads_back(b);
}

/// An answer `radius=X` asks for the radius that X reads as.
pub proof fn law_radius_answer_takes_number(x: Seq<char>, number: Seq<char>)
    ensures
        config_option_from("radius="@ + x, number) == ConfigOptionView::Radius(number),
{
    reveal_strlit("radius=");
    reveal_strlit("radius");
    assert(("radius="@ + x).subrange(0, 6) =~= "radius"@);
}

/// A written data-set option carries its own value: after its name, the
/// text reads back as the option's value.
pub proof fn law_data_option_text_reads_back(o: DataSetOptionView)
    ensures
        match o {
            DataSetOptionView::Tension(t) => {
                let w = data_option_text(o);
                has_prefix(w, "tension : "@) && w.subrange(10, w.len() - 1) == t && w.last() == ' '
            },
            DataSetOptionView::Fill(b) => {
                let w = data_option_text(o);
                has_prefix(w, "fill : "@) && parse_bool_text(w.subrange(7, w.len() - 1)) == Some(b)
                    && w.last() == ' '
            },
            DataSetOptionView::Order(n) => {
                let w = data_option_text(o);
                has_prefix(w, "order : "@) && parse_unsigned(w.subrange(8, w.len() - 1), u64::MAX as nat)
                    == Some(n as nat) && w.last() == ' '
            },
        },
{
    reveal_strlit("tension : ");
    reveal_strlit("fill : ");
    reveal_strlit("order : ");
    reveal_strlit(" ");
    let w = data_option_text(o);
    match o {
        DataSetOptionView::Tension(t) => {
            assert(w.subrange(0, 10) =~= "tension : "@);
            assert(w.subrange(10, w.len() - 1) =~= t);
        },
        DataSetOptionView::Fill(b) => {
            assert(w.subrange(0, 7) =~= "fill : "@);
            assert(w.subrange(7, w.len() - 1) =~= bool_text(b));
            crate::text::law_bool_text_reads_back(b);
        },
        DataSetOptionView::Order(n) => {
            assert(w.subrange(0, 8) =~= "order : "@);
            assert(w.subrange(8, w.len() - 1) =~= decimal(n as nat));
            crate::text::law_decimal_parses_back(n as nat, u64::MAX as nat);
        },
    }
}

/// A written chart option carries its own value: after its name, the text
/// reads back as the option's value.
pub proof fn law_config_option_text_reads_back(o: ConfigOptionView)
    ensures
        match o {
            ConfigOptionView::Radius(r) => {
                let w = config_option_text(o);
                has_prefix(w, "radius : "@) && w.skip(9) == r
            },
            ConfigOptionView::Responsive(b) => {
                let w = config_option_text(o);
                has_prefix(w, "responsive : "@) && parse_bool_text(w.skip(13)) == Some(b)
            },
        },
{
    reveal_strlit("radius : ");
    reveal_strlit("responsive : ");
    let w = config_option_text(o);
    match o {
        ConfigOptionView::Radius(r) => {
            assert(w.subrange(0, 9) =~= "radius : "@);
            assert(w.skip(9) =~= r);
        },
        ConfigOptionView::Responsive(b) => {
            assert(w.subrange(0, 13) =~= "responsive : "@);
            assert(w.skip(13) =~= bool_text(b));
            crate::text::law_bool_text_reads_back(b);
        },
    }
}

/// A written colour carries the colour: between `'rgb(` and `)'` stands a
/// text that reads back as it.
pub proof fn law_color_text_carries_color(c: Color)
    ensures
        has_prefix(color_text(c), "'rgb("@),
        color_from_text(color_text(c).subrange(5, color_text(c).len() - 2)) == c,
        color_text(c).subrange(color_text(c).len() - 2, color_text(c).len() as int) == ")'"@,
{
    reveal_strlit("'rgb(");
    reveal_strlit(")'");
    let w = color_text(c);
    let inner = decimal(c.0 as nat) + ","@ + decimal(c.1 as nat) + ","@ + decimal(c.2 as nat);
    assert(w =~= "'rgb("@ + inner + ")'"@);
    assert(w.subrange(0, 5) =~= "'rgb("@);
    assert(w.subrange(5, w.len() - 2) =~= inner);
    assert(w.subrange(w.len() - 2, w.len() as int) =~= ")'"@);
    law_color_text_reads_back(c);
}

} // verus!

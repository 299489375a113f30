use csv_chart::file_questionary::{BuildHandle, Color, ConfigOption, DataSetOption, FileConfig, Graph, GraphStyle};
use csv_chart::html_file_parser::{add_type, buid_html_page_str, HTML_BOTTOM, HTML_TOP};

#[test]
fn add_type_writes_a_property() {
    let mut page = String::from("x");
    add_type(&mut page, "label", "speed");
    assert_eq!(page, "xlabel : speed,");
}

#[test]
fn page_for_one_attribute() {
    let graph = Graph {
        eq: None,
        color: Color(1, 2, 3),
        config: vec![ConfigOption::RESPONSIVE(true)],
        data_config: vec![DataSetOption::FILL(true), DataSetOption::ORDER(2)],
        style: GraphStyle::BAR,
    };
    let handle = BuildHandle { nodes: vec![graph], config: FileConfig { usage_rate: None, range: None } };
    let data = vec![
        vec!["0".to_string(), "0.5".to_string()],
        vec!["7".to_string(), "8".to_string()],
    ];
    let page = buid_html_page_str(data, vec!["speed"], handle);
    let expected = format!(
        "{}const labels = [0,0.5,];const data = {{labels: labels,datasets: [{{label : speed,backgroundColor : 'rgb(1,2,3)',borderColor : 'rgb(1,2,3)',type : \"bar\",fill : true ,order : 2 ,data : [7,8,]}},]}};{}",
        HTML_TOP, HTML_BOTTOM
    );
    assert_eq!(page, expected);
}

#[test]
fn page_without_attributes() {
    let handle = BuildHandle { nodes: vec![], config: FileConfig::default() };
    let page = buid_html_page_str(vec![vec![]], vec![], handle);
    assert_eq!(page, format!("{}const labels = [];const data = {{labels: labels,datasets: []}};{}", HTML_TOP, HTML_BOTTOM));
    assert!(page.starts_with("<html><head>"));
    assert!(page.ends_with("</html>"));
}

#[test]
fn page_ignores_equations_options_and_settings() {
    let make = |eq: Option<&str>, config: Vec<ConfigOption>, file: FileConfig| BuildHandle {
        nodes: vec![Graph {
            eq: eq.map(|e| e.to_string()),
            color: Color(9, 8, 7),
            config,
            data_config: vec![DataSetOption::TENSION("0.5".to_string())],
            style: GraphStyle::RADAR,
        }],
        config: file,
    };
    let data = vec![vec!["1".to_string()], vec!["2".to_string()]];
    let a = buid_html_page_str(data.clone(), vec!["x"], make(None, vec![], FileConfig::default()));
    let b = buid_html_page_str(
        data,
        vec!["x"],
        make(Some("x*3"), vec![ConfigOption::RADIUS("4".to_string())], FileConfig { usage_rate: None, range: Some(0..1) }),
    );
    assert_eq!(a, b);
}

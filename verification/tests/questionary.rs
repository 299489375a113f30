use csv_chart::file_questionary::{
    Action, BuildHandle, Color, ConfigOption, DataSetOption, FileConfig, Graph, GraphStyle,
    Questionary, Stage,
};

#[test]
fn color_from_text() {
    let c = Color::from(String::from("10,20,30"));
    assert_eq!((c.0, c.1, c.2), (10, 20, 30));
    let c = Color::from(String::from("1,2"));
    assert_eq!((c.0, c.1, c.2), (1, 2, 0));
    let c = Color::from(String::from("a,300,5,9"));
    assert_eq!((c.0, c.1, c.2), (0, 0, 5));
    let c = Color::from(String::from(" 1,2,3"));
    assert_eq!((c.0, c.1, c.2), (0, 2, 3));
}

#[test]
fn color_text() {
    assert_eq!(Color(10, 0, 255).into_string(), "'rgb(10,0,255)'");
}

#[test]
fn color_written_as_rgb_reads_back() {
    for (r, g, b) in [(0u8, 0u8, 0u8), (255, 128, 7), (9, 10, 99)] {
        let c = Color::from(format!("{},{},{}", r, g, b));
        assert_eq!((c.0, c.1, c.2), (r, g, b));
    }
}

#[test]
fn random_color_renders() {
    let c = Color::default();
    let text = c.into_string();
    assert!(text.starts_with("'rgb(") && text.ends_with(")'"));
}

#[test]
fn style_from_text() {
    assert!(matches!(GraphStyle::from(String::from("BAR")), GraphStyle::BAR));
    assert!(matches!(GraphStyle::from(String::from("Polar_Area")), GraphStyle::POLAR_AREA));
    assert!(matches!(GraphStyle::from(String::from("doughnut")), GraphStyle::DOUGHNUT));
    assert!(matches!(GraphStyle::from(String::from("polarArea")), GraphStyle::LINE));
    assert!(matches!(GraphStyle::from(String::from("whatever")), GraphStyle::LINE));
}

#[test]
fn style_names() {
    assert_eq!(GraphStyle::POLAR_AREA.into_string(), "polarArea");
    assert_eq!(GraphStyle::RADAR.into_string(), "radar");
}

#[test]
fn style_names_read_back_except_polar_area() {
    for s in [GraphStyle::BAR, GraphStyle::LINE, GraphStyle::BUBBLE, GraphStyle::DOUGHNUT, GraphStyle::PIE, GraphStyle::RADAR] {
        let name = s.into_string();
        assert_eq!(GraphStyle::from(name.clone()).into_string(), name);
    }
}

#[test]
fn data_set_options_from_answers() {
    assert!(matches!(DataSetOption::from_answer("tension=0.40", "0.4".to_string()), DataSetOption::TENSION(t) if t == "0.4"));
    assert!(matches!(DataSetOption::from_answer("fill=true", String::new()), DataSetOption::FILL(true)));
    assert!(matches!(DataSetOption::from_answer("fill=yes", String::new()), DataSetOption::FILL(false)));
    assert!(matches!(DataSetOption::from_answer("order=7", String::new()), DataSetOption::ORDER(7)));
    assert!(matches!(DataSetOption::from_answer("order=-1", String::new()), DataSetOption::ORDER(0)));
    assert!(matches!(DataSetOption::from_answer("order", String::new()), DataSetOption::ORDER(0)));
    assert!(matches!(DataSetOption::from_answer("colour=3", String::new()), DataSetOption::FILL(false)));
}

#[test]
fn data_set_option_texts() {
    assert_eq!(DataSetOption::TENSION("0.4".to_string()).into_string(), "tension : 0.4 ");
    assert_eq!(DataSetOption::FILL(true).into_string(), "fill : true ");
    assert_eq!(DataSetOption::ORDER(12).into_string(), "order : 12 ");
}

#[test]
fn config_options() {
    assert!(matches!(ConfigOption::from_answer("radius=2", "2".to_string()), ConfigOption::RADIUS(r) if r == "2"));
    assert!(matches!(ConfigOption::from_answer("responsive=true", String::new()), ConfigOption::RESPONSIVE(true)));
    assert!(matches!(ConfigOption::from_answer("nothing", String::new()), ConfigOption::RESPONSIVE(false)));
    assert_eq!(ConfigOption::RADIUS("0".to_string()).into_string(), "radius : 0");
    assert_eq!(ConfigOption::RESPONSIVE(false).into_string(), "responsive : false");
}

#[test]
fn default_graph_and_file_config() {
    let g = Graph::default();
    assert!(g.eq.is_none());
    assert!(matches!(g.style, GraphStyle::LINE));
    assert_eq!(g.config.len(), 2);
    assert!(matches!(&g.config[0], ConfigOption::RADIUS(r) if r == "0"));
    assert!(matches!(g.config[1], ConfigOption::RESPONSIVE(true)));
    assert!(g.data_config.is_empty());
    let f = FileConfig::default();
    assert_eq!(f.usage_rate, Some(100));
    assert!(f.range.is_none());
}

fn times(n: usize) -> Vec<i64> {
    (0..n as i64).collect()
}

#[test]
fn default_settings_keep_every_hundredth_point() {
    let data = vec![times(250), times(250)];
    let out = FileConfig::default().data_adapter(data, &times(250));
    assert_eq!(out[0], vec![0, 100, 200]);
    assert_eq!(out[1], vec![0, 100, 200]);
}

#[test]
fn no_usage_rate_keeps_everything() {
    let cfg = FileConfig { usage_rate: None, range: Some(0..1) };
    let out = cfg.data_adapter(vec![times(5), times(7)], &times(5));
    assert_eq!(out, vec![times(5), times(7)]);
}

#[test]
fn usage_rate_one_keeps_everything() {
    let cfg = FileConfig { usage_rate: Some(-1), range: None };
    let out = cfg.data_adapter(vec![times(4)], &times(4));
    assert_eq!(out, vec![times(4)]);
}

#[test]
fn range_and_negative_rate() {
    let cfg = FileConfig { usage_rate: Some(-2), range: Some(2..7) };
    let data = vec![vec![10, 11, 12, 13, 14, 15, 16, 17, 18], vec![0, 1, 2, 3, 4, 5, 6, 7, 8, 9, 10]];
    let rounded = vec![0, 1, 2, 3, 4, 5, 6, 7, 8];
    let out = cfg.data_adapter(data, &rounded);
    assert_eq!(out[0], vec![12, 14, 16]);
    assert_eq!(out[1], vec![2, 4, 6, 9, 10]);
}

fn run(attrs: &[&str], replies: &[&str]) -> (Vec<String>, BuildHandle) {
    let (mut q, mut action) = Questionary::new(attrs.iter().map(|a| a.to_string()).collect(), "f.csv".to_string());
    let mut shown = Vec::new();
    let mut replies = replies.iter();
    loop {
        match action {
            Action::Finished => break,
            Action::Say(s) => {
                shown.push(s);
                action = q.step(String::new());
            }
            Action::Ask(s) | Action::ReadNumber(s) => {
                shown.push(s);
                action = q.step(replies.next().expect("a reply").to_string());
            }
        }
    }
    assert!(q.is_done());
    (shown, q.into_handle())
}

#[test]
fn questionary_without_attributes() {
    let (shown, handle) = run(&[], &[]);
    assert!(shown.is_empty());
    assert!(handle.nodes.is_empty());
    assert_eq!(handle.config.usage_rate, Some(100));
}

#[test]
fn questionary_all_defaults() {
    let (shown, handle) = run(&["a", "b"], &["y", "y"]);
    assert_eq!(
        shown,
        vec![
            "Settings for attribute a in file f.csv",
            "Default settings ? (y/n)",
            "Settings for attribute b in file f.csv",
            "Default settings ? (y/n)",
        ]
    );
    assert_eq!(handle.nodes.len(), 2);
    assert!(handle.nodes.iter().all(|g| g.eq.is_none() && g.config.len() == 2));
}

#[test]
fn questionary_full_answers() {
    let replies = [
        "n", "Bar", "1,2,3", "y", "radius=2.50", "2.5", "n", "y", "order=4", "0", "y",
        "tension=x", "0", "n", "y", "x*2", "y", "-5,10", "y", "3",
    ];
    let (shown, handle) = run(&["speed"], &replies);
    assert_eq!(shown[0], "Settings for attribute speed in file f.csv");
    assert_eq!(shown[2], "Graph style options are : BAR,\n        LINE,\n        BUBBLE,\n        DOUGHNUT,\n        PIE,\n        POLAR_AREA,\n        RADAR .Everything must be given lowercase and underscores must be removed. (if you fuck up it will choose line)");
    assert_eq!(shown[5], "Config options are RADIUS(Rational),\n        RESPONSIVE(Boolean),. Format type lowercase => type=VALUE");
    assert_eq!(shown[6], "2.50");
    assert_eq!(*shown.last().unwrap(), "finished for attr speed");
    assert_eq!(handle.nodes.len(), 1);
    let g = &handle.nodes[0];
    assert!(matches!(g.style, GraphStyle::BAR));
    assert_eq!((g.color.0, g.color.1, g.color.2), (1, 2, 3));
    assert_eq!(g.config.len(), 1);
    assert!(matches!(&g.config[0], ConfigOption::RADIUS(r) if r == "2.5"));
    assert_eq!(g.data_config.len(), 2);
    assert!(matches!(g.data_config[0], DataSetOption::ORDER(4)));
    assert!(matches!(&g.data_config[1], DataSetOption::TENSION(t) if t == "0"));
    assert_eq!(g.eq.as_deref(), Some("x*2"));
    assert_eq!(handle.config.range, Some(-5..10));
    assert_eq!(handle.config.usage_rate, Some(3));
}

#[test]
fn questionary_range_without_comma_and_bad_usage_rate() {
    let replies = ["n", "pie", "", "n", "n", "n", "y", "oops", "y", "many"];
    let (_, handle) = run(&["a"], &replies);
    assert_eq!(handle.config.range, Some(0..0));
    assert_eq!(handle.config.usage_rate, Some(0));
    let g = &handle.nodes[0];
    assert!(g.eq.is_none());
    assert!(matches!(g.style, GraphStyle::PIE));
}

#[test]
fn questionary_stage_after_greeting() {
    let (mut q, action) = Questionary::new(vec!["a".to_string()], "f".to_string());
    assert!(matches!(action, Action::Say(_)));
    assert!(!q.is_done());
    assert!(matches!(q.step(String::new()), Action::Ask(s) if s == "Default settings ? (y/n)"));
    let _ = Stage::Done;
}

#[test]
fn rate_sign_does_not_matter() {
    let data = vec![times(12), times(13)];
    let a = FileConfig { usage_rate: Some(3), range: Some(1..10) }.data_adapter(data.clone(), &times(12));
    let b = FileConfig { usage_rate: Some(-3), range: Some(1..10) }.data_adapter(data, &times(12));
    assert_eq!(a, b);
    assert_eq!(a[0], vec![3, 6, 9]);
}

#[test]
fn rate_one_second_pass_keeps_all() {
    let cfg = FileConfig { usage_rate: Some(1), range: Some(2..5) };
    let data = vec![times(8), times(10)];
    let once = cfg.data_adapter(data, &times(8));
    let rounded: Vec<i64> = once[0].clone();
    let twice = cfg.data_adapter(once.clone(), &rounded);
    assert_eq!(twice, once);
}

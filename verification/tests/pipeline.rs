use excel_img::pipeline::derive_task;
use excel_img::{DownloadTask, KvPair, Pipeline, RunError};

fn row(cells: &[&str]) -> Vec<String> {
    cells.iter().map(|c| c.to_string()).collect()
}

fn sheet_of_three() -> Vec<Vec<String>> {
    vec![
        row(&["id", "url"]),
        row(&["1", "http://h/a.jpg"]),
        row(&["2", "http://h/b.png"]),
        row(&["3", "http://h/c.gif"]),
    ]
}

#[test]
fn header_plus_three_rows_yield_three_tasks() {
    let kv = KvPair { sort_id: 0, url: 1 };
    let mut p = Pipeline::new(sheet_of_three(), kv, "/tmp/out/".to_string());
    assert_eq!(p.total(), 3);
    let mut tasks: Vec<(usize, DownloadTask)> = Vec::new();
    while !p.is_done() {
        tasks.push(p.next_task().unwrap());
    }
    assert_eq!(tasks.len(), 3);
    assert_eq!(tasks[0].0, 1);
    assert_eq!(tasks[0].1.url, "http://h/a.jpg");
    assert_eq!(tasks[0].1.output_path, "/tmp/out/1.jpg");
    assert_eq!(tasks[1].0, 2);
    assert_eq!(tasks[1].1.url, "http://h/b.png");
    assert_eq!(tasks[1].1.output_path, "/tmp/out/2.png");
    assert_eq!(tasks[2].0, 3);
    assert_eq!(tasks[2].1.url, "http://h/c.gif");
    assert_eq!(tasks[2].1.output_path, "/tmp/out/3.gif");
}

#[test]
fn header_only_sheet_completes_with_zero_tasks() {
    let kv = KvPair { sort_id: 0, url: 1 };
    let p = Pipeline::new(vec![row(&["id", "url"])], kv, "/tmp/out/".to_string());
    assert_eq!(p.total(), 0);
    assert!(p.is_done());
}

#[test]
fn tasks_come_strictly_in_row_order() {
    let kv = KvPair { sort_id: 0, url: 1 };
    let mut p = Pipeline::new(sheet_of_three(), kv, "/tmp/out/".to_string());
    let (i1, t1) = p.next_task().unwrap();
    let (i2, t2) = p.next_task().unwrap();
    assert_eq!(i1, 1);
    assert_eq!(t1.output_path, "/tmp/out/1.jpg");
    assert_eq!(i2, 2);
    assert_eq!(t2.output_path, "/tmp/out/2.png");
    assert!(!p.is_done());
}

#[test]
fn missing_extension_fails_the_row_and_stops_the_cursor() {
    let kv = KvPair { sort_id: 0, url: 1 };
    let rows = vec![
        row(&["id", "url"]),
        row(&["1", "http://h/a.jpg"]),
        row(&["2", "http://h/no_extension"]),
        row(&["3", "http://h/c.gif"]),
    ];
    let mut p = Pipeline::new(rows, kv, "/tmp/out/".to_string());
    let (i1, _) = p.next_task().unwrap();
    assert_eq!(i1, 1);
    let e = p.next_task().unwrap_err();
    assert_eq!(
        e,
        RunError::MissingExtension { url: "http://h/no_extension".to_string() }
    );
    assert_eq!(e.message(), "No file extension in url http://h/no_extension");
    // The run aborts here: the cursor did not move past the failing row,
    // and no task for row 3 was ever produced.
    assert!(!p.is_done());
}

#[test]
fn columns_can_be_configured_in_either_order() {
    let kv = KvPair { sort_id: 1, url: 0 };
    let rows = vec![row(&["url", "id"]), row(&["http://h/x.png", "9"])];
    let mut p = Pipeline::new(rows, kv, "d/".to_string());
    let (_, t) = p.next_task().unwrap();
    assert_eq!(t.url, "http://h/x.png");
    assert_eq!(t.output_path, "d/9.png");
}

#[test]
fn derive_task_uses_the_configured_cells() {
    let kv = KvPair { sort_id: 0, url: 2 };
    let r = row(&["7", "ignored", "http://h/p.jpeg"]);
    let t = derive_task(&r, &kv, "out/").unwrap();
    assert_eq!(t.url, "http://h/p.jpeg");
    assert_eq!(t.output_path, "out/7.jpeg");
}

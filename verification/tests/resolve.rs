use rhs::resolve::{file_target, read_file, FileStep};

fn s(text: &str) -> String {
    String::from(text)
}

fn lookup(files: &[(&str, &str)], path: &str) -> (String, String, Vec<String>) {
    let mut reads = Vec::new();
    let mut trying_index = false;
    loop {
        let target = file_target(path, trying_index);
        let contents = files.iter().find(|f| f.0 == target).map(|f| s(f.1));
        reads.push(target);
        match read_file(trying_index, contents) {
            FileStep::Answer { status, body } => return (status, body, reads),
            FileStep::TryIndex => {
                assert!(!trying_index);
                trying_index = true;
            },
        }
    }
}

#[test]
fn file_that_is_present_is_sent_with_200() {
    let files = [("/root/index.html", "<h1>home</h1>")];
    let (status, body, reads) = lookup(&files, "/root/index.html");
    assert_eq!(status, "200 OK");
    assert_eq!(body, "<h1>home</h1>");
    assert_eq!(reads, vec![s("/root/index.html")]);
}

#[test]
fn path_without_file_or_index_is_404() {
    let files = [("/root/index.html", "home")];
    let (status, body, reads) = lookup(&files, "/root/missing");
    assert_eq!(status, "404 Not Found");
    assert_eq!(body, "404 Not Found\nrhs/0.1");
    assert_eq!(reads, vec![s("/root/missing"), s("/root/missing/index.html")]);
}

#[test]
fn directory_is_answered_by_its_index_file() {
    let files = [("/root/sub/index.html", "sub index")];
    let (status, body, reads) = lookup(&files, "/root/sub");
    assert_eq!(status, "200 OK");
    assert_eq!(body, "sub index");
    assert_eq!(reads, vec![s("/root/sub"), s("/root/sub/index.html")]);
}

#[test]
fn index_file_is_tried_once_only() {
    match read_file(true, None) {
        FileStep::Answer { status, body } => {
            assert_eq!(status, "404 Not Found");
            assert_eq!(body, "404 Not Found\nrhs/0.1");
        },
        FileStep::TryIndex => panic!("a second fallback"),
    }
    assert!(matches!(read_file(false, None), FileStep::TryIndex));
}

#[test]
fn contents_are_passed_on_unchanged() {
    for trying_index in [false, true] {
        match read_file(trying_index, Some(s(""))) {
            FileStep::Answer { status, body } => {
                assert_eq!(status, "200 OK");
                assert_eq!(body, "");
            },
            FileStep::TryIndex => panic!("contents dropped"),
        }
    }
}

#[test]
fn index_path_is_appended_verbatim() {
    assert_eq!(file_target("/srv/www/docs", false), "/srv/www/docs");
    assert_eq!(file_target("/srv/www/docs", true), "/srv/www/docs/index.html");
    assert_eq!(file_target("/srv/www/", true), "/srv/www//index.html");
    assert_eq!(file_target("", true), "/index.html");
    assert_eq!(file_target("/srv/../etc", false), "/srv/../etc");
}

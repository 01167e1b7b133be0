use sacct_tui::record::{Field, SacctData};

fn sample() -> SacctData {
    SacctData {
        job_id: "101".to_string(),
        job_name: "build".to_string(),
        user: "alice".to_string(),
        account: "research".to_string(),
        partition: "short".to_string(),
        state: "COMPLETED".to_string(),
        exit_code: "0:0".to_string(),
        start: "2024-01-01T00:00".to_string(),
        end: "2024-01-01T01:00".to_string(),
        submit: "2023-12-31T23:59".to_string(),
        elapsed: "01:00:00".to_string(),
        time_limit: "02:00:00".to_string(),
        n_nodes: "1".to_string(),
        alloc_cpus: "8".to_string(),
        req_cpus: "4".to_string(),
        node_list: "node01".to_string(),
        req_mem: "4G".to_string(),
        max_rss: "120000".to_string(),
        user_cpu: "00:45:00".to_string(),
        work_dir: "/home/alice".to_string(),
    }
}

#[test]
fn display_line_pads_each_column() {
    let line = sample().display_line();
    assert_eq!(line, "101          build                COMPLETED  01:00:00     alice   ");
    assert_eq!(line.chars().count(), 12 + 1 + 20 + 1 + 10 + 1 + 12 + 1 + 8);
}

#[test]
fn display_line_agrees_with_format() {
    let job = sample();
    assert_eq!(
        job.display_line(),
        format!(
            "{:<12} {:<20} {:<10} {:<12} {:<8}",
            job.job_id, job.job_name, job.state, job.elapsed, job.user
        )
    );
}

#[test]
fn display_line_cuts_nothing_off() {
    let mut job = sample();
    job.job_name = "a-job-name-of-more-than-twenty-characters".to_string();
    job.user = "averylongusername".to_string();
    assert_eq!(
        job.display_line(),
        "101          a-job-name-of-more-than-twenty-characters COMPLETED  01:00:00     averylongusername"
    );
}

#[test]
fn display_line_of_the_empty_record_is_blank() {
    let line = SacctData::default().display_line();
    assert_eq!(line, " ".repeat(66));
}

#[test]
fn default_is_empty_in_every_field() {
    let job = SacctData::default();
    for field in all_fields() {
        assert_eq!(job.get(field), "");
    }
}

fn all_fields() -> Vec<Field> {
    vec![
        Field::JobId,
        Field::JobName,
        Field::User,
        Field::Account,
        Field::Partition,
        Field::State,
        Field::ExitCode,
        Field::Start,
        Field::End,
        Field::Submit,
        Field::Elapsed,
        Field::TimeLimit,
        Field::NNodes,
        Field::AllocCpus,
        Field::ReqCpus,
        Field::NodeList,
        Field::ReqMem,
        Field::MaxRss,
        Field::UserCpu,
        Field::WorkDir,
    ]
}

#[test]
fn get_reads_each_field() {
    let job = sample();
    let expected = [
        "101", "build", "alice", "research", "short", "COMPLETED", "0:0", "2024-01-01T00:00",
        "2024-01-01T01:00", "2023-12-31T23:59", "01:00:00", "02:00:00", "1", "8", "4", "node01",
        "4G", "120000", "00:45:00", "/home/alice",
    ];
    for (field, text) in all_fields().into_iter().zip(expected) {
        assert_eq!(job.get(field), text, "{:?}", field);
    }
}

#[test]
fn clone_keeps_every_field() {
    let job = sample();
    let copy = job.clone();
    for field in all_fields() {
        assert_eq!(copy.get(field), job.get(field));
    }
}

#[test]
fn detail_lines_label_every_field() {
    assert_eq!(sample().detail_lines(), vec![
        "Job ID: 101",
        "Job Name: build",
        "Partition: short",
        "Account: research",
        "Allocated CPUs: 8",
        "State: COMPLETED",
        "Exit Code: 0:0",
        "Start Time: 2024-01-01T00:00",
        "End Time: 2024-01-01T01:00",
        "Elapsed: 01:00:00",
        "Time Limit: 02:00:00",
        "Submit Time: 2023-12-31T23:59",
        "User: alice",
        "Work Directory: /home/alice",
        "Nodes: 1",
        "Node List: node01",
        "Requested CPUs: 4",
        "Requested Memory: 4G",
        "Max RSS: 120000",
        "User CPU: 00:45:00",
    ]);
}

#[test]
fn detail_text_joins_the_lines() {
    let job = sample();
    let text = job.detail_text();
    assert_eq!(text, job.detail_lines().join("\n"));
    assert!(text.starts_with("Job ID: 101\nJob Name: build\nPartition: short\n"));
    assert!(text.ends_with("\nUser CPU: 00:45:00"));
    assert_eq!(text.lines().count(), 20);
}

#[test]
fn detail_text_of_the_empty_record_keeps_the_labels() {
    let text = SacctData::default().detail_text();
    assert!(text.starts_with("Job ID: \nJob Name: \n"));
    assert!(text.ends_with("\nUser CPU: "));
}

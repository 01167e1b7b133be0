use sacct_tui::layout::{field_name, Layout};
use sacct_tui::record::Field;

fn tokens(n: usize) -> Vec<String> {
    (0..n).map(|k| format!("t{}", k)).collect()
}

#[test]
fn resource_layout_has_fifteen_columns() {
    assert_eq!(Layout::Resource.columns(), 15);
    assert_eq!(Layout::Resource.min_columns(), 14);
    assert_eq!(Layout::Resource.field_at(0), Some(Field::JobId));
    assert_eq!(Layout::Resource.field_at(7), Some(Field::State));
    assert_eq!(Layout::Resource.field_at(14), Some(Field::UserCpu));
    assert_eq!(Layout::Resource.field_at(15), None);
    assert_eq!(Layout::Resource.index_of(Field::WorkDir), None);
    assert_eq!(Layout::Resource.index_of(Field::User), Some(2));
}

#[test]
fn accounting_layout_has_fourteen_columns() {
    assert_eq!(Layout::Accounting.columns(), 14);
    assert_eq!(Layout::Accounting.min_columns(), 13);
    assert_eq!(Layout::Accounting.field_at(2), Some(Field::Partition));
    assert_eq!(Layout::Accounting.field_at(13), Some(Field::WorkDir));
    assert_eq!(Layout::Accounting.field_at(14), None);
    assert_eq!(Layout::Accounting.index_of(Field::NodeList), None);
    assert_eq!(Layout::Accounting.index_of(Field::User), Some(12));
}

#[test]
fn columns_and_positions_name_each_other() {
    for layout in [Layout::Resource, Layout::Accounting] {
        for k in 0..layout.columns() {
            let field = layout.field_at(k).unwrap();
            assert_eq!(layout.index_of(field), Some(k));
        }
        assert_eq!(layout.field_at(layout.columns()), None);
    }
}

#[test]
fn format_flag_lists_the_columns_in_order() {
    assert_eq!(
        Layout::Resource.format_flag(),
        "--format=JobID,JobName,User,Start,End,Elapsed,Timelimit,State,NNodes,ExitCode,NodeList,ReqCPUS,ReqMem,MaxRSS,UserCPU"
    );
    assert_eq!(
        Layout::Accounting.format_flag(),
        "--format=JobID,JobName,Partition,Account,AllocCPUS,State,ExitCode,Start,End,Elapsed,Timelimit,Submit,User,WorkDir"
    );
}

#[test]
fn field_name_is_the_name_the_tool_knows() {
    assert_eq!(field_name(Some(Field::JobId)), "JobID");
    assert_eq!(field_name(Some(Field::TimeLimit)), "Timelimit");
    assert_eq!(field_name(Some(Field::AllocCpus)), "AllocCPUS");
    assert_eq!(field_name(None), "");
}

#[test]
fn record_from_puts_each_token_in_its_field() {
    let record = Layout::Resource.record_from(&tokens(15));
    assert_eq!(record.job_id, "t0");
    assert_eq!(record.job_name, "t1");
    assert_eq!(record.user, "t2");
    assert_eq!(record.start, "t3");
    assert_eq!(record.end, "t4");
    assert_eq!(record.elapsed, "t5");
    assert_eq!(record.time_limit, "t6");
    assert_eq!(record.state, "t7");
    assert_eq!(record.n_nodes, "t8");
    assert_eq!(record.exit_code, "t9");
    assert_eq!(record.node_list, "t10");
    assert_eq!(record.req_cpus, "t11");
    assert_eq!(record.req_mem, "t12");
    assert_eq!(record.max_rss, "t13");
    assert_eq!(record.user_cpu, "t14");
    assert_eq!(record.account, "");
    assert_eq!(record.partition, "");
    assert_eq!(record.submit, "");
    assert_eq!(record.alloc_cpus, "");
    assert_eq!(record.work_dir, "");
}

#[test]
fn record_from_under_the_accounting_layout() {
    let record = Layout::Accounting.record_from(&tokens(14));
    assert_eq!(record.job_id, "t0");
    assert_eq!(record.job_name, "t1");
    assert_eq!(record.partition, "t2");
    assert_eq!(record.account, "t3");
    assert_eq!(record.alloc_cpus, "t4");
    assert_eq!(record.state, "t5");
    assert_eq!(record.exit_code, "t6");
    assert_eq!(record.start, "t7");
    assert_eq!(record.end, "t8");
    assert_eq!(record.elapsed, "t9");
    assert_eq!(record.time_limit, "t10");
    assert_eq!(record.submit, "t11");
    assert_eq!(record.user, "t12");
    assert_eq!(record.work_dir, "t13");
    assert_eq!(record.node_list, "");
    assert_eq!(record.user_cpu, "");
}

#[test]
fn record_from_leaves_missing_columns_empty_and_ignores_extra_tokens() {
    let short = Layout::Resource.record_from(&tokens(3));
    assert_eq!(short.job_id, "t0");
    assert_eq!(short.user, "t2");
    assert_eq!(short.start, "");
    assert_eq!(short.user_cpu, "");
    let long = Layout::Resource.record_from(&tokens(20));
    assert_eq!(long.user_cpu, "t14");
    assert_eq!(long.work_dir, "");
    let none = Layout::Resource.record_from(&tokens(0));
    assert_eq!(none.job_id, "");
}

use jobsched::codec::decode;
use jobsched::job::Job;
use jobsched::submitter::{parse_client_port, parse_id, Submitter, MAX_JOB_TIME_MS, MIN_JOB_TIME_MS};

#[test]
fn parse_id_reads_number() {
    let a = String::from("42");
    assert_eq!(parse_id(Some(&a)), Ok(42));
}

#[test]
fn parse_id_missing() {
    assert_eq!(parse_id(None), Err(String::from("No MobileId argument provided")));
}

#[test]
fn parse_id_invalid() {
    let a = String::from("-1");
    assert_eq!(parse_id(Some(&a)), Err(String::from("Invalid MobileId provided")));
}

#[test]
fn parse_client_port_cases() {
    let a = String::from("8081");
    let b = String::from("eighty");
    assert_eq!(parse_client_port(Some(&a)), Ok(8081));
    assert_eq!(parse_client_port(Some(&b)), Err(String::from("Invalid Client Port provided")));
    assert_eq!(parse_client_port(None), Err(String::from("No Client Port argument provided")));
}

#[test]
fn job_numbers_start_at_one_and_rise() {
    let mut s = Submitter::new(9);
    assert_eq!(s.next_job(100), Some(Job::new(9, 1, 100)));
    assert_eq!(s.next_job(200), Some(Job::new(9, 2, 200)));
    assert_eq!(s.sent(), 2);
}

#[test]
fn records_carry_drawn_times_in_range() {
    let mut s = Submitter::new(4);
    let mut times: Vec<u32> = Vec::new();
    for n in 1..=60u32 {
        let (job, bytes) = s.next_record().unwrap();
        assert_eq!(job.mobile_id, 4);
        assert_eq!(job.job_id, n);
        assert!(job.remaining_time_ms >= MIN_JOB_TIME_MS && job.remaining_time_ms < MAX_JOB_TIME_MS);
        assert_eq!(decode(&bytes), Ok(job));
        times.push(job.remaining_time_ms);
    }
    assert!(times.iter().any(|&t| t != MIN_JOB_TIME_MS));
}

#[test]
fn parse_id_bounds_of_u32() {
    let max = String::from("4294967295");
    let over = String::from("4294967296");
    assert_eq!(parse_id(Some(&max)), Ok(4294967295));
    assert_eq!(parse_id(Some(&over)), Err(String::from("Invalid MobileId provided")));
}

#[test]
fn parse_id_sign_and_empty() {
    let plus = String::from("+7");
    let lone_plus = String::from("+");
    let empty = String::new();
    let spaced = String::from(" 7");
    assert_eq!(parse_id(Some(&plus)), Ok(7));
    assert_eq!(parse_id(Some(&lone_plus)), Err(String::from("Invalid MobileId provided")));
    assert_eq!(parse_id(Some(&empty)), Err(String::from("Invalid MobileId provided")));
    assert_eq!(parse_id(Some(&spaced)), Err(String::from("Invalid MobileId provided")));
}

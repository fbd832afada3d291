use paracas::client::DownloadError;
use paracas::decompress::decompress_bi5;
use paracas::decompress::DecompressError;
use paracas::estimate::format_bytes;
use paracas::estimate::format_duration;
use paracas::estimate::CategoryEstimate;
use paracas::estimate::EstimateConfidence;
use paracas::estimate::EstimateDatabase;
use paracas::estimate::Estimator;
use paracas::format::CsvFormatter;
use paracas::format::JsonFormatter;
use paracas::format::JsonStyle;
use paracas::format::OutputFormat;
use paracas::format::ParquetFormatter;
use paracas::instrument::parse_category;
use paracas::instrument::Category;
use paracas::instrument::Instrument;
use paracas::instrument::InstrumentRegistry;
use paracas::job::checkpoint_due;
use paracas::job::format_job_id;
use paracas::job::parse_job_id;
use paracas::job::progress_report_due;
use paracas::job::DownloadJob;
use paracas::job::InstrumentTask;
use paracas::job::JobStatus;
use paracas::jobcodec::parse_job;
use paracas::jobcodec::serialize_job;
use paracas::state::active_jobs;
use paracas::state::cleanup_stale_jobs;
use paracas::state::should_clean;
use paracas::state::sort_jobs_newest_first;
use paracas::state::StateManager;
use paracas::stream::flatten_ticks;
use paracas::stream::process_download_result;
use paracas::stream::process_download_result_resilient;
use paracas::stream::resilient_batches;
use paracas::stream::TickBatch;
use paracas::tick::Tick;
use paracas::time::Date;
use paracas::time::DateRange;
use paracas::time::Timestamp;

fn create_test_task(id: &str, out: &str) -> InstrumentTask {
    InstrumentTask::new(
        id.to_string(),
        "2024-01-01".to_string(),
        "2024-01-02".to_string(),
        out.to_string(),
        "csv".to_string(),
        "tick".to_string(),
        48,
    )
}

fn create_test_job() -> DownloadJob {
    DownloadJob::new(vec![create_test_task("EURUSD", "/tmp/eurusd.csv")], 4)
}

#[test]
fn test_job_status_is_finished() {
    assert!(!JobStatus::Pending.is_finished());
    assert!(!JobStatus::Running.is_finished());
    assert!(JobStatus::Completed.is_finished());
    assert!(JobStatus::Failed.is_finished());
    assert!(JobStatus::Cancelled.is_finished());
}

#[test]
fn test_download_job_lifecycle() {
    let mut job = create_test_job();
    assert_eq!(job.status, JobStatus::Pending);
    assert!(job.started_at.is_none());
    assert!(!job.is_finished());

    job.mark_started(12345);
    assert_eq!(job.status, JobStatus::Running);
    assert!(job.started_at.is_some());
    assert_eq!(job.pid, Some(12345));
    assert!(!job.is_finished());

    job.mark_completed();
    assert_eq!(job.status, JobStatus::Completed);
    assert!(job.completed_at.is_some());
    assert!(job.is_finished());
}

#[test]
fn test_download_job_progress() {
    let tasks = vec![
        create_test_task("EURUSD", "/tmp/eurusd.csv"),
        create_test_task("GBPUSD", "/tmp/gbpusd.csv"),
    ];
    let mut job = DownloadJob::new(tasks, 4);
    assert_eq!(job.total_hours(), 96);
    assert_eq!(job.completed_hours(), 0);
    job.update_task_progress(0, 48, 1000);
    assert_eq!(job.completed_hours(), 48);
    assert_eq!(job.tasks[0].ticks_downloaded, 1000);
    assert_eq!(job.tasks[0].status, JobStatus::Running);
}

#[test]
fn test_mark_cancelled_terminates_tasks() {
    let tasks = vec![
        create_test_task("EURUSD", "/tmp/a.csv"),
        create_test_task("GBPUSD", "/tmp/b.csv"),
    ];
    let mut job = DownloadJob::new(tasks, 4);
    job.mark_started(1);
    job.mark_cancelled();
    assert_eq!(job.status, JobStatus::Cancelled);
    assert!(job.completed_at.is_some());
    for t in &job.tasks {
        assert!(t.status.is_finished());
    }
}

#[test]
fn test_mark_failed_marks_running_tasks() {
    let mut job = create_test_job();
    job.mark_started(1);
    job.mark_task_running(0);
    job.mark_failed(Some("boom".to_string()));
    assert_eq!(job.status, JobStatus::Failed);
    assert_eq!(job.tasks[0].status, JobStatus::Failed);
    assert_eq!(job.tasks[0].error_message.as_deref(), Some("boom"));
}

#[test]
fn test_task_updates() {
    let mut job = create_test_job();
    job.mark_task_completed(0, 2048);
    assert_eq!(job.tasks[0].status, JobStatus::Completed);
    assert_eq!(job.tasks[0].bytes_written, 2048);
    assert_eq!(job.tasks[0].hours_completed, 48);
    assert!(job.all_tasks_finished());
    assert_eq!(job.count_tasks(JobStatus::Completed), 1);
}

#[test]
fn test_save_and_load_job() {
    let mut job = create_test_job();
    job.mark_started(777);
    job.log_file = Some("/tmp/logs/x.log".to_string());
    job.tasks[0].error_message = Some("odd \"quote\" and \\slash\\ and\nnewline".to_string());
    let text = serialize_job(&job);
    let loaded = parse_job(&text).expect("round trip should parse");
    assert_eq!(loaded.id, job.id);
    assert_eq!(loaded.status, job.status);
    assert_eq!(loaded.created_at, job.created_at);
    assert_eq!(loaded.started_at, job.started_at);
    assert_eq!(loaded.completed_at, job.completed_at);
    assert_eq!(loaded.concurrency, job.concurrency);
    assert_eq!(loaded.pid, job.pid);
    assert_eq!(loaded.log_file, job.log_file);
    assert_eq!(loaded.tasks.len(), job.tasks.len());
    let (a, b) = (&loaded.tasks[0], &job.tasks[0]);
    assert_eq!(a.instrument_id, b.instrument_id);
    assert_eq!(a.start_date, b.start_date);
    assert_eq!(a.end_date, b.end_date);
    assert_eq!(a.output_path, b.output_path);
    assert_eq!(a.format, b.format);
    assert_eq!(a.timeframe, b.timeframe);
    assert_eq!(a.status, b.status);
    assert_eq!(a.hours_completed, b.hours_completed);
    assert_eq!(a.hours_total, b.hours_total);
    assert_eq!(a.ticks_downloaded, b.ticks_downloaded);
    assert_eq!(a.bytes_written, b.bytes_written);
    assert_eq!(a.error_message, b.error_message);
}

#[test]
fn test_parse_job_rejects_malformed() {
    assert!(parse_job("not a job").is_none());
    assert!(parse_job("").is_none());
    let job = create_test_job();
    let mut text = serialize_job(&job);
    text.push('x');
    assert!(parse_job(&text).is_none());
}

#[test]
fn test_job_id_text_round_trip() {
    let id: u128 = 0x0123_4567_89ab_cdef_0011_2233_4455_6677;
    let text = format_job_id(id);
    assert_eq!(text, "01234567-89ab-cdef-0011-223344556677");
    assert_eq!(parse_job_id(&text), Some(id));
    assert_eq!(parse_job_id("nonsense"), None);
}

#[test]
fn test_job_state_path() {
    let manager = StateManager::with_base("/data/paracas".to_string());
    let path = manager.job_state_path(0);
    assert!(path.contains("jobs"));
    assert!(path.ends_with(".json"));
}

#[test]
fn test_job_log_path() {
    let manager = StateManager::with_base("/data/paracas".to_string());
    let path = manager.job_log_path(0);
    assert!(path.contains("logs"));
    assert!(path.ends_with(".log"));
}

#[test]
fn test_active_jobs() {
    let mut done = create_test_job();
    done.mark_completed();
    let pending = create_test_job();
    let id = pending.id;
    let active = active_jobs(vec![done, pending]);
    assert_eq!(active.len(), 1);
    assert_eq!(active[0].id, id);
}

#[test]
fn test_sort_jobs_newest_first() {
    let a = create_test_job();
    let b = create_test_job();
    let c = create_test_job();
    let sorted = sort_jobs_newest_first(vec![a, b, c]);
    assert_eq!(sorted.len(), 3);
    for w in sorted.windows(2) {
        assert!(w[0].created_at.to_epoch_ms() >= w[1].created_at.to_epoch_ms());
    }
}

#[test]
fn test_cleanup_stale_jobs() {
    let mut dead = create_test_job();
    dead.mark_started(999);
    let dead_id = dead.id;
    let mut alive_job = create_test_job();
    alive_job.mark_started(1000);
    let pending = create_test_job();

    let jobs = vec![dead, alive_job, pending];
    let alive = vec![false, true, false];
    let (updated, stale) = cleanup_stale_jobs(jobs, &alive);
    assert_eq!(stale, vec![dead_id]);
    assert_eq!(updated[0].status, JobStatus::Failed);
    assert_eq!(
        updated[0].tasks[0].error_message.as_deref(),
        None,
        "pending task carries no message"
    );
    assert_eq!(updated[1].status, JobStatus::Running);
    assert_eq!(updated[2].status, JobStatus::Pending);

    let (again, stale2) = cleanup_stale_jobs(updated, &alive);
    assert!(stale2.is_empty());
    assert_eq!(again.len(), 3);
}

#[test]
fn test_cleanup_message_on_running_task() {
    let mut dead = create_test_job();
    dead.mark_started(999);
    dead.mark_task_running(0);
    let (updated, stale) = cleanup_stale_jobs(vec![dead], &vec![false]);
    assert_eq!(stale.len(), 1);
    assert_eq!(
        updated[0].tasks[0].error_message.as_deref(),
        Some("Daemon process died unexpectedly")
    );
}

#[test]
fn test_pause_resume() {
    let mut job = create_test_job();
    job.mark_started(5);
    job.mark_paused();
    assert_eq!(job.status, JobStatus::Paused);
    job.mark_resumed(6);
    assert_eq!(job.status, JobStatus::Running);
    assert_eq!(job.pid, Some(6));
}

#[test]
fn test_estimate_confidence() {
    assert_eq!(EstimateConfidence::High.as_str(), "high");
    assert_eq!(EstimateConfidence::Medium.as_str(), "medium");
    assert_eq!(EstimateConfidence::Low.as_str(), "low");
}

fn create_test_instrument(category: Category) -> Instrument {
    Instrument::new(
        "test".to_string(),
        "Test Instrument".to_string(),
        "Test description".to_string(),
        category,
        100_000,
        None,
    )
}

#[test]
fn test_estimate_single_forex() {
    let estimator = Estimator::default();
    let instrument = create_test_instrument(Category::Forex);
    let range = DateRange::new(
        Date::new(2024, 1, 1).unwrap(),
        Date::new(2024, 1, 1).unwrap(),
    )
    .unwrap();
    let db = EstimateDatabase::builtin();
    let estimate = estimator.estimate_single(&instrument, &range, &db);
    assert_eq!(estimate.total_hours, 24);
    assert_eq!(estimate.estimated_compressed_bytes, 75000 * 24);
    assert_eq!(estimate.estimated_ticks, 5000 * 24);
    assert_eq!(estimate.confidence, EstimateConfidence::High);
}

#[test]
fn test_estimate_batch() {
    let estimator = Estimator::default();
    let forex = create_test_instrument(Category::Forex);
    let crypto = create_test_instrument(Category::Crypto);
    let range = DateRange::single_day(Date::new(2024, 1, 1).unwrap());
    let db = EstimateDatabase::builtin();
    let estimate = estimator.estimate_batch(&vec![forex, crypto], &range, &db);
    assert_eq!(estimate.total_hours, 48);
    assert_eq!(estimate.estimated_compressed_bytes, (75000 + 150000) * 24);
}

#[test]
fn test_empty_batch() {
    let estimator = Estimator::default();
    let range = DateRange::single_day(Date::new(2024, 1, 1).unwrap());
    let db = EstimateDatabase::builtin();
    let estimate = estimator.estimate_batch(&Vec::new(), &range, &db);
    assert_eq!(estimate.total_hours, 0);
    assert_eq!(estimate.estimated_compressed_bytes, 0);
}

#[test]
fn test_format_bytes() {
    assert_eq!(format_bytes(500), "500 B");
    assert_eq!(format_bytes(1536), "1.50 KB");
    assert_eq!(format_bytes(1_572_864), "1.50 MB");
    assert_eq!(format_bytes(1_610_612_736), "1.50 GB");
}

#[test]
fn test_format_duration() {
    assert_eq!(format_duration(30), "30s");
    assert_eq!(format_duration(90), "1m 30s");
    assert_eq!(format_duration(3600), "1h");
    assert_eq!(format_duration(5400), "1h 30m");
}

#[test]
fn test_peak_calculations() {
    let estimate = CategoryEstimate::new("test".to_string(), 100000, 5000, 200);
    assert_eq!(estimate.max_compressed_bytes_per_hour(), 200000);
    assert_eq!(estimate.max_ticks_per_hour(), 10000);
}

#[test]
fn test_default_estimate() {
    let default = EstimateDatabase::default_estimate();
    assert_eq!(default.category, "unknown");
    assert_eq!(default.avg_compressed_bytes_per_hour, 50000);
}

#[test]
fn test_global_database_loads() {
    let db = EstimateDatabase::builtin();
    assert!(!db.is_empty());
    assert_eq!(db.len(), 7);
}

#[test]
fn test_category_estimates_present() {
    let db = EstimateDatabase::builtin();
    let forex = db.get("forex").expect("forex should exist");
    assert_eq!(forex.avg_compressed_bytes_per_hour, 75000);
    assert_eq!(forex.avg_ticks_per_hour, 5000);
    let crypto = db.get("crypto").expect("crypto should exist");
    assert_eq!(crypto.avg_compressed_bytes_per_hour, 150000);
    assert_eq!(crypto.avg_ticks_per_hour, 10000);
}

fn test_registry() -> InstrumentRegistry {
    InstrumentRegistry::new(vec![
        Instrument::new(
            "eurusd".to_string(),
            "EUR/USD".to_string(),
            "Euro vs US Dollar".to_string(),
            Category::Forex,
            100_000,
            Some(1_052_092_800_000),
        ),
        Instrument::new(
            "btcusd".to_string(),
            "BTC/USD".to_string(),
            "Bitcoin vs US Dollar".to_string(),
            Category::Crypto,
            10,
            None,
        ),
    ])
}

#[test]
fn test_get_eurusd() {
    let registry = test_registry();
    let eurusd = registry.get("eurusd").expect("EURUSD should exist");
    assert_eq!(eurusd.id(), "eurusd");
    assert_eq!(eurusd.decimal_factor(), 100_000);
}

#[test]
fn test_get_case_insensitive() {
    let registry = test_registry();
    assert!(registry.get("EURUSD").is_some());
    assert!(registry.get("EurUsd").is_some());
    assert!(registry.get("eurusd").is_some());
}

#[test]
fn test_forex_filter() {
    let registry = test_registry();
    let forex = registry.by_category(Category::Forex);
    assert_eq!(forex.len(), 1);
    assert!(registry.all()[forex[0]].is_forex());
}

#[test]
fn test_instrument_creation() {
    let instrument = Instrument::new(
        "eurusd".to_string(),
        "EUR/USD".to_string(),
        "Euro vs US Dollar".to_string(),
        Category::Forex,
        100_000,
        Some(1_052_092_800_000),
    );
    assert_eq!(instrument.id(), "eurusd");
    assert_eq!(instrument.name(), "EUR/USD");
    assert_eq!(instrument.decimal_factor(), 100_000);
    assert!(instrument.is_forex());
    assert!(!instrument.is_crypto());
}

#[test]
fn test_has_data_for() {
    let instrument = Instrument::new(
        "eurusd".to_string(),
        "EUR/USD".to_string(),
        "Euro vs US Dollar".to_string(),
        Category::Forex,
        100_000,
        Some(1_052_092_800_000),
    );
    assert!(!instrument.has_data_for(1_041_379_200_000));
    assert!(instrument.has_data_for(1_704_067_200_000));
}

#[test]
fn test_parse_category_tags() {
    assert_eq!(parse_category("Forex"), Some(Category::Forex));
    assert_eq!(parse_category("bond"), Some(Category::Bond));
    assert_eq!(parse_category("stockings"), None);
    assert_eq!(Category::Commodity.as_str(), "commodity");
}

#[test]
fn test_output_format() {
    assert_eq!(OutputFormat::Csv.extension(), "csv");
    assert_eq!(OutputFormat::all().len(), 4);
    assert_eq!("ndjson".parse::<OutputFormat>().unwrap(), OutputFormat::Ndjson);
    assert_eq!("PQ".parse::<OutputFormat>().unwrap(), OutputFormat::Parquet);
    assert!("yaml".parse::<OutputFormat>().is_err());
}

#[test]
fn test_formatter_builders() {
    let csv = CsvFormatter::new().with_delimiter(';').with_header(false);
    assert_eq!(csv.delimiter, ';');
    assert!(!csv.include_header);
    assert_eq!(CsvFormatter::tsv().delimiter, '\t');
    let json = JsonFormatter::new().with_pretty(true);
    assert!(json.pretty);
    assert_eq!(JsonFormatter::ndjson().style, JsonStyle::Ndjson);
    let pq = ParquetFormatter::new().with_row_group_size(5000);
    assert_eq!(pq.row_group_size, 5000);
}

#[test]
fn test_empty_input() {
    let result = decompress_bi5(&Vec::new());
    assert!(matches!(result, Err(DecompressError::EmptyInput)));
}

#[test]
fn test_invalid_lzma() {
    let result = decompress_bi5(&vec![0x00, 0x01, 0x02, 0x03]);
    assert!(matches!(result, Err(DecompressError::LzmaError(_))));
}

fn compress(plain: &[u8]) -> Vec<u8> {
    let mut out = Vec::new();
    lzma_rs::lzma_compress(&mut std::io::BufReader::new(std::io::Cursor::new(plain)), &mut out)
        .unwrap();
    out
}

fn record_bytes(ms: u32, ask: u32, bid: u32, av: f32, bv: f32) -> Vec<u8> {
    let mut b = Vec::new();
    b.extend_from_slice(&ms.to_be_bytes());
    b.extend_from_slice(&ask.to_be_bytes());
    b.extend_from_slice(&bid.to_be_bytes());
    b.extend_from_slice(&av.to_bits().to_be_bytes());
    b.extend_from_slice(&bv.to_bits().to_be_bytes());
    b
}

#[test]
fn test_decompress_round() {
    let plain = record_bytes(0, 100, 99, 10.0, 20.0);
    let compressed = compress(&plain);
    let out = decompress_bi5(&compressed).unwrap();
    assert_eq!(out, plain);
}

#[test]
fn test_process_download_result_present() {
    let hour = 1_700_000_000_000u64;
    let mut plain = record_bytes(5, 100, 99, 10.0, 20.0);
    plain.extend(record_bytes(1000, 101, 100, 15.0, 25.0));
    let body = compress(&plain);
    let batch = process_download_result(hour, Ok(Some(body))).unwrap();
    assert_eq!(batch.hour_ms, hour);
    assert!(!batch.had_error);
    assert_eq!(batch.ticks.len(), 2);
    assert_eq!(batch.ticks[0].timestamp_ms, hour + 5);
    assert_eq!(batch.ticks[1].ask_raw, 101);
}

#[test]
fn test_process_download_result_errors() {
    let hour = 1_700_000_000_000u64;
    let absent = process_download_result(hour, Ok(None)).unwrap();
    assert!(absent.ticks.is_empty() && !absent.had_error);
    let http = process_download_result(hour, Err(DownloadError::Timeout(3)));
    assert!(http.is_err());
    let bad = process_download_result(hour, Ok(Some(vec![1, 2, 3])));
    assert!(bad.is_err());
    let skipped = process_download_result_resilient(hour, Ok(Some(vec![1, 2, 3])));
    assert!(skipped.had_error && skipped.ticks.is_empty());
}

#[test]
fn test_resilient_batches_one_per_hour() {
    let range = DateRange::single_day(Date::new(2024, 3, 1).unwrap());
    let hours = range.hours();
    let plain = record_bytes(1, 7, 6, 1.0, 1.0);
    let body = compress(&plain);
    let mut outcomes: Vec<Result<Option<Vec<u8>>, DownloadError>> = Vec::new();
    for i in 0..hours.len() {
        if i == 0 {
            outcomes.push(Ok(Some(body.clone())));
        } else if i == 1 {
            outcomes.push(Err(DownloadError::Timeout(10)));
        } else {
            outcomes.push(Ok(None));
        }
    }
    let batches = resilient_batches(&hours, outcomes);
    assert_eq!(batches.len(), 24);
    for (i, b) in batches.iter().enumerate() {
        assert_eq!(b.hour_ms, hours[i].start_ms());
    }
    assert_eq!(batches[0].ticks.len(), 1);
    assert!(batches[1].had_error);
    let total: usize = batches.iter().map(|b| b.ticks.len()).sum();
    assert_eq!(total, 1);
    let mut seen = std::collections::HashSet::new();
    for b in &batches {
        assert!(seen.insert(b.hour_ms), "no hour twice");
    }
}

#[test]
fn test_flatten_ticks() {
    let t1 = Tick::new(1, 2, 1, 0, 0);
    let t2 = Tick::new(2, 3, 2, 0, 0);
    let b1 = TickBatch::new(0, vec![t1]);
    let b2 = TickBatch::skipped_error(3_600_000);
    let b3 = TickBatch::new(7_200_000, vec![t2]);
    let flat = flatten_ticks(&vec![b1, b2, b3]);
    assert_eq!(flat.len(), 2);
    assert_eq!(flat[0].timestamp_ms, 1);
    assert_eq!(flat[1].timestamp_ms, 2);
}

#[test]
fn test_download_error_message() {
    assert_eq!(
        DownloadError::Timeout(4).message(),
        "request timed out after 4 attempts"
    );
    assert_eq!(
        DownloadError::ServerError { status: 503 }.message(),
        "server error: 503"
    );
}

#[test]
fn test_tick_batch_new() {
    let batch = TickBatch::new(0, Vec::new());
    assert!(batch.is_empty());
    assert_eq!(batch.len(), 0);
    assert!(!batch.had_error());
}

#[test]
fn test_tick_batch_skipped_error() {
    let batch = TickBatch::skipped_error(0);
    assert!(batch.is_empty());
    assert!(batch.had_error());
}

#[test]
fn test_daemon_spawner_creation() {
    let mgr = StateManager::with_base("/tmp/paracas-test".to_string());
    let spawner =
        paracas::daemon::DaemonSpawner::with_executable(mgr, "/bin/echo".to_string());
    assert_eq!(spawner.executable().as_str(), "/bin/echo");
}

#[test]
fn test_daemon_spawner_with_executable() {
    let mgr = StateManager::with_base("/tmp/paracas-test".to_string());
    let spawner =
        paracas::daemon::DaemonSpawner::with_executable(mgr, "/custom/paracas".to_string());
    assert_eq!(spawner.executable().as_str(), "/custom/paracas");
}

#[test]
fn test_spawn_sets_log_file() {
    let mgr = StateManager::with_base("/tmp/paracas-test".to_string());
    let expected = mgr.job_log_path(0);
    let spawner = paracas::daemon::DaemonSpawner::with_executable(mgr, "/bin/echo".to_string());
    let mut job = create_test_job();
    job.id = 0;
    let log_path = spawner.prepare_spawn(&mut job);
    assert_eq!(job.log_file.as_deref(), Some(log_path.as_str()));
    assert_eq!(log_path, expected);
    let args = paracas::daemon::DaemonSpawner::spawn_args(job.id);
    assert_eq!(args[0], "--daemon-run");
    assert_eq!(args[1], format_job_id(job.id));
}

#[test]
fn test_effective_start() {
    let inst = Instrument::new(
        "eurusd".to_string(),
        "EUR/USD".to_string(),
        "Euro vs US Dollar".to_string(),
        Category::Forex,
        100_000,
        Some(1_052_006_400_000),
    );
    let early = Date::new(2001, 1, 1).unwrap();
    let clamped = inst.effective_start(early);
    assert_eq!((clamped.year, clamped.month, clamped.day), (2003, 5, 4));
    let late = Date::new(2024, 6, 1).unwrap();
    assert_eq!(inst.effective_start(late), late);
    let unknown = Instrument::new(
        "x".to_string(),
        "X".to_string(),
        "X".to_string(),
        Category::Forex,
        10,
        None,
    );
    assert_eq!(unknown.effective_start(early), early);
}

#[test]
fn test_should_clean() {
    let old = Timestamp::from_epoch_ms(1_700_000_000_000).unwrap();
    let now = Timestamp::from_epoch_ms(1_700_000_000_000 + 2 * 86_400_000).unwrap();
    let fresh = Timestamp::from_epoch_ms(1_700_000_000_000 + 86_400_000).unwrap();
    assert!(should_clean(JobStatus::Cancelled, &fresh, &now, false));
    assert!(should_clean(JobStatus::Completed, &old, &now, false));
    assert!(!should_clean(JobStatus::Completed, &fresh, &now, false));
    assert!(!should_clean(JobStatus::Running, &old, &now, false));
    assert!(should_clean(JobStatus::Failed, &fresh, &now, true));
    assert!(!should_clean(JobStatus::Paused, &old, &now, true));
}

#[test]
fn test_reset_for_respawn() {
    let mut job = create_test_job();
    job.mark_started(42);
    job.mark_paused();
    job.reset_for_respawn();
    assert_eq!(job.status, JobStatus::Pending);
    assert_eq!(job.pid, None);
    let mut running = create_test_job();
    running.mark_started(43);
    running.reset_for_respawn();
    assert_eq!(running.status, JobStatus::Running);
    assert_eq!(running.pid, Some(43));
}

#[test]
fn test_checkpoint_decisions() {
    assert!(checkpoint_due(10_000, 10_000));
    assert!(!checkpoint_due(9_999, 10_000));
    assert!(progress_report_due(10));
    assert!(progress_report_due(240));
    assert!(!progress_report_due(0));
    assert!(!progress_report_due(7));
}

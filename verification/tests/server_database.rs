use solver_pilot::server_db::SCHEMA;
use sqlx::sqlite::{SqlitePool, SqlitePoolOptions};

fn run<F: std::future::Future<Output = ()>>(future: F) {
    tokio::runtime::Builder::new_current_thread()
        .enable_all()
        .build()
        .unwrap()
        .block_on(future);
}

async fn init_local_test_db() -> SqlitePool {
    let pool = SqlitePoolOptions::new()
        .max_connections(1)
        .connect("sqlite::memory:")
        .await
        .unwrap();
    sqlx::query(SCHEMA).execute(&pool).await.unwrap();
    pool
}

#[test]
fn test_init_local_test_db_creates_schema() {
    run(async {
        let pool = init_local_test_db().await;

        let result: (i64,) = sqlx::query_as(
            "SELECT COUNT(*) FROM pragma_table_info('jobs') WHERE name IN ('id', 'user', 'benchmark_path', 'status', 'tmux_session_name', 'queued_at', 'started_at', 'completed_at', 'exit_code', 'error_message', 'log_file', 'progress_current', 'progress_total')"
        )
        .fetch_one(&pool)
        .await
        .unwrap();

        assert_eq!(result.0, 13);

        let indexes: Vec<(String,)> =
            sqlx::query_as("SELECT name FROM sqlite_master WHERE type='index' AND tbl_name='jobs'")
                .fetch_all(&pool)
                .await
                .unwrap();

        let index_names: Vec<String> = indexes.into_iter().map(|(name,)| name).collect();
        assert!(index_names.contains(&"idx_jobs_status".to_string()));
        assert!(index_names.contains(&"idx_jobs_user".to_string()));
        assert!(index_names.contains(&"idx_jobs_queued_at".to_string()));

        let metadata_exists: (i64,) = sqlx::query_as(
            "SELECT COUNT(*) FROM sqlite_master WHERE type='table' AND name='metadata'",
        )
        .fetch_one(&pool)
        .await
        .unwrap();

        assert_eq!(metadata_exists.0, 1);

        pool.close().await;
    });
}

#[test]
fn test_init_local_test_db_idempotent() {
    run(async {
        let pool = init_local_test_db().await;
        sqlx::query(SCHEMA).execute(&pool).await.unwrap();
        let tables: (i64,) = sqlx::query_as(
            "SELECT COUNT(*) FROM sqlite_master WHERE type='table' AND name IN ('jobs', 'metadata')",
        )
        .fetch_one(&pool)
        .await
        .unwrap();
        assert_eq!(tables.0, 2);
    });
}

#[test]
fn test_init_local_test_db_busy_timeout() {
    run(async {
        let pool = init_local_test_db().await;

        let result: (i64,) = sqlx::query_as("PRAGMA busy_timeout")
            .fetch_one(&pool)
            .await
            .unwrap();

        assert_eq!(result.0, 5000);

        pool.close().await;
    });
}

#[test]
fn test_wrapper_script_compatibility() {
    run(async {
        let pool = init_local_test_db().await;

        let job_id = "test-job-123";
        sqlx::query(
            "INSERT INTO jobs (id, user, benchmark_path, status, queued_at)
             VALUES (?, ?, ?, ?, datetime('now'))",
        )
        .bind(job_id)
        .bind("testuser")
        .bind("/path/to/benchmark.py")
        .bind("queued")
        .execute(&pool)
        .await
        .unwrap();

        sqlx::query(
            "UPDATE jobs SET status=?, started_at=datetime('now'), tmux_session_name=? WHERE id=?",
        )
        .bind("running")
        .bind(format!("solverpilot_testuser_{}", &job_id[..8]))
        .bind(job_id)
        .execute(&pool)
        .await
        .unwrap();

        let result: (String, String) =
            sqlx::query_as("SELECT status, started_at FROM jobs WHERE id=?")
                .bind(job_id)
                .fetch_one(&pool)
                .await
                .unwrap();

        assert_eq!(result.0, "running");
        assert!(!result.1.is_empty());

        sqlx::query(
            "UPDATE jobs SET status=?, completed_at=datetime('now'), exit_code=? WHERE id=?",
        )
        .bind("completed")
        .bind(0)
        .bind(job_id)
        .execute(&pool)
        .await
        .unwrap();

        let result: (String, Option<String>, Option<i64>) =
            sqlx::query_as("SELECT status, completed_at, exit_code FROM jobs WHERE id=?")
                .bind(job_id)
                .fetch_one(&pool)
                .await
                .unwrap();

        assert_eq!(result.0, "completed");
        assert!(result.1.is_some());
        assert_eq!(result.2, Some(0));

        pool.close().await;
    });
}

#[test]
fn test_wrapper_script_sql_injection_safety() {
    run(async {
        let pool = init_local_test_db().await;

        let job_id = "test-job-with-'quote";
        sqlx::query(
            "INSERT INTO jobs (id, user, benchmark_path, status, queued_at)
             VALUES (?, ?, ?, ?, datetime('now'))",
        )
        .bind(job_id)
        .bind("testuser")
        .bind("/path/to/benchmark.py")
        .bind("queued")
        .execute(&pool)
        .await
        .unwrap();

        sqlx::query("UPDATE jobs SET status=? WHERE id=?")
            .bind("running")
            .bind(job_id)
            .execute(&pool)
            .await
            .unwrap();

        let result: (String,) = sqlx::query_as("SELECT status FROM jobs WHERE id=?")
            .bind(job_id)
            .fetch_one(&pool)
            .await
            .unwrap();

        assert_eq!(result.0, "running");

        pool.close().await;
    });
}

#[test]
fn test_status_check_constraint() {
    run(async {
        let pool = init_local_test_db().await;

        let result = sqlx::query(
            "INSERT INTO jobs (id, user, benchmark_path, status, queued_at)
             VALUES (?, ?, ?, ?, datetime('now'))",
        )
        .bind("test-job-123")
        .bind("testuser")
        .bind("/path/to/benchmark.py")
        .bind("invalid_status")
        .execute(&pool)
        .await;

        assert!(result.is_err());

        let valid_statuses = vec!["queued", "running", "completed", "failed", "killed"];
        for (i, status) in valid_statuses.iter().enumerate() {
            let job_id = format!("test-job-{i}");
            sqlx::query(
                "INSERT INTO jobs (id, user, benchmark_path, status, queued_at)
                 VALUES (?, ?, ?, ?, datetime('now'))",
            )
            .bind(&job_id)
            .bind("testuser")
            .bind("/path/to/benchmark.py")
            .bind(*status)
            .execute(&pool)
            .await
            .unwrap();
        }

        pool.close().await;
    });
}

#[test]
fn the_status_query_reads_what_the_wrapper_writes() {
    run(async {
        let pool = init_local_test_db().await;
        sqlx::query(
            "INSERT INTO jobs (id, user, benchmark_path, status, queued_at) VALUES ('42', 'u', '', 'queued', 't')",
        )
        .execute(&pool)
        .await
        .unwrap();
        sqlx::query("UPDATE jobs SET status='failed', exit_code=3, completed_at='2026-01-11T14:30:00Z' WHERE id='42'")
            .execute(&pool)
            .await
            .unwrap();
        let row: (String, Option<i64>, Option<String>) =
            sqlx::query_as("SELECT status, exit_code, completed_at FROM jobs WHERE id = 42")
                .fetch_one(&pool)
                .await
                .unwrap();
        let printed = format!(
            "{}|{}|{}\n",
            row.0,
            row.1.map(|c| c.to_string()).unwrap_or_default(),
            row.2.unwrap_or_default()
        );
        assert_eq!(
            solver_pilot::queue_service::parse_sql_output(&printed),
            Some((
                "failed".to_string(),
                Some(3),
                Some("2026-01-11T14:30:00Z".to_string())
            ))
        );
    });
}

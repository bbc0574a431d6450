use cer_tracer::schedule::{split_rows, split_rows_for_machine, RowRange};

fn range(start: u16, end: u16) -> RowRange {
    RowRange { start, end }
}

fn is_partition(chunks: &[RowRange], height: u16) -> bool {
    let mut next = 0u16;
    for c in chunks {
        if c.start != next || c.end <= c.start {
            return false;
        }
        next = c.end;
    }
    next == height
}

#[test]
fn rows_divide_evenly() {
    assert_eq!(split_rows(8, 4), vec![range(0, 2), range(2, 4), range(4, 6), range(6, 8)]);
}

#[test]
fn last_chunk_takes_the_remainder() {
    assert_eq!(split_rows(10, 4), vec![range(0, 3), range(3, 6), range(6, 9), range(9, 10)]);
    assert_eq!(split_rows(10, 3), vec![range(0, 4), range(4, 8), range(8, 10)]);
}

#[test]
fn fewer_chunks_than_workers_where_rows_run_out() {
    assert_eq!(split_rows(9, 4), vec![range(0, 3), range(3, 6), range(6, 9)]);
    assert_eq!(split_rows(3, 8), vec![range(0, 1), range(1, 2), range(2, 3)]);
}

#[test]
fn full_hd_on_sixteen_workers() {
    let chunks = split_rows(1080, 16);
    assert_eq!(chunks.len(), 16);
    assert_eq!(chunks[0], range(0, 68));
    assert_eq!(chunks[14], range(952, 1020));
    assert_eq!(chunks[15], range(1020, 1080));
    assert!(is_partition(&chunks, 1080));
}

#[test]
fn one_worker_or_none_takes_everything() {
    assert_eq!(split_rows(7, 1), vec![range(0, 7)]);
    assert_eq!(split_rows(7, 0), vec![range(0, 7)]);
}

#[test]
fn no_rows_make_no_chunk() {
    assert_eq!(split_rows(0, 4), Vec::<RowRange>::new());
    assert_eq!(split_rows(0, 0), Vec::<RowRange>::new());
}

#[test]
fn every_split_is_a_partition() {
    for height in [1u16, 2, 5, 17, 100, 1080, 65535] {
        for workers in [0usize, 1, 2, 3, 7, 16, 64, 1000, 70000, usize::MAX] {
            let chunks = split_rows(height, workers);
            assert!(is_partition(&chunks, height), "{} rows, {} workers", height, workers);
            assert!(chunks.len() <= workers.max(1));
            let full = chunks[0].end - chunks[0].start;
            for c in &chunks[..chunks.len() - 1] {
                assert_eq!(c.end - c.start, full);
            }
        }
    }
}

#[test]
fn each_row_is_in_one_chunk() {
    let chunks = split_rows(50, 6);
    for y in 0..50u16 {
        assert_eq!(chunks.iter().filter(|c| c.contains(y)).count(), 1);
    }
    assert!(!chunks.iter().any(|c| c.contains(50)));
}

#[test]
fn the_machine_split_is_the_split_for_its_worker_count() {
    let (workers, chunks) = split_rows_for_machine(1080);
    assert_eq!(chunks, split_rows(1080, workers));
    assert!(is_partition(&chunks, 1080));
    assert_eq!(workers, num_cpus::get());
}

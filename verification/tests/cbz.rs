use mkcbz::cbz::{job_kind, CbzWriter, JobKind};

#[test]
fn avif_images_are_copied() {
    assert_eq!(job_kind(Some(&b"avif"[..])), JobKind::Copy);
    assert_eq!(job_kind(Some(&b"AVIF"[..])), JobKind::Copy);
    assert_eq!(job_kind(Some(&b"AvIf"[..])), JobKind::Copy);
}

#[test]
fn other_images_are_converted() {
    assert_eq!(job_kind(Some(&b"png"[..])), JobKind::Convert);
    assert_eq!(job_kind(Some(&b"avi"[..])), JobKind::Convert);
    assert_eq!(job_kind(Some(&b"avifs"[..])), JobKind::Convert);
    assert_eq!(job_kind(Some(&b""[..])), JobKind::Convert);
    assert_eq!(job_kind(Some(&b"\xC1VIF"[..])), JobKind::Convert);
    assert_eq!(job_kind(None), JobKind::Convert);
}

#[test]
fn new_writer_is_empty_and_numbers_from_one() {
    let w: CbzWriter<&str> = CbzWriter::new(3, 4);
    assert_eq!(w.next_index(), 1);
    assert_eq!(w.pending_count(), 0);
    assert_eq!(w.entry_name(1), b"001.avif".to_vec());
}

#[test]
fn jobs_come_out_in_submission_order() {
    let mut w: CbzWriter<&str> = CbzWriter::new(2, 2);
    let mut done = Vec::new();
    for (i, page) in ["a.png", "b.avif", "c.jpg", "d.AVIF", "e"].iter().enumerate() {
        while let Some(job) = w.pop_due() {
            done.push((job.index, job.kind, job.payload));
        }
        assert!(w.pending_count() < 2);
        let ext = page.rsplit_once('.').map(|(_, e)| e.as_bytes());
        w.push(job_kind(ext), page);
        assert_eq!(w.next_index(), i + 2);
        assert!(w.pending_count() <= 2);
    }
    // three jobs were completed on the way, two are left
    assert_eq!(done.len(), 3);
    while let Some(job) = w.pop_pending() {
        done.push((job.index, job.kind, job.payload));
    }
    assert!(w.pop_pending().is_none());
    assert_eq!(
        done,
        vec![
            (1, JobKind::Convert, "a.png"),
            (2, JobKind::Copy, "b.avif"),
            (3, JobKind::Convert, "c.jpg"),
            (4, JobKind::Copy, "d.AVIF"),
            (5, JobKind::Convert, "e"),
        ]
    );
}

#[test]
fn one_process_completes_each_job_before_the_next() {
    let mut w: CbzWriter<u32> = CbzWriter::new(1, 1);
    assert!(w.pop_due().is_none());
    w.push(JobKind::Copy, 10);
    let job = w.pop_due().expect("queue is full");
    assert_eq!((job.index, job.payload), (1, 10));
    assert!(w.pop_due().is_none());
    w.push(JobKind::Convert, 20);
    assert_eq!(w.pending_count(), 1);
    let job = w.pop_pending().expect("one pending");
    assert_eq!((job.index, job.kind, job.payload), (2, JobKind::Convert, 20));
}

#[test]
fn entry_names_use_the_padding() {
    let w: CbzWriter<()> = CbzWriter::new(4, 1);
    assert_eq!(w.entry_name(12), b"0012.avif".to_vec());
    assert_eq!(w.entry_name(123456), b"123456.avif".to_vec());
}

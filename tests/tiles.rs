use megingjord::{
    DrawJob, JobStage, LocalOSMTiles, Placeholders, ProgressReport, RenderJob, TileCache,
    TileCoord, TileState, WorkerPool, threads_to_terminate,
};

fn images() -> Placeholders<Vec<u8>> {
    Placeholders {
        waiting: b"waiting".to_vec(),
        collecting: b"collecting".to_vec(),
        styling: b"styling".to_vec(),
        drawing: b"drawing".to_vec(),
        empty: b"empty".to_vec(),
        failed: b"failed".to_vec(),
    }
}

fn coord(x: u32, y: u32, zoom: u8) -> TileCoord {
    TileCoord::new(x, y, zoom)
}

fn is_waiting(s: Option<&TileState<Vec<u8>>>) -> bool {
    matches!(s, Some(TileState::Waiting))
}

#[test]
fn supported_tiles_lie_inside_the_grid() {
    assert!(coord(0, 0, 0).is_supported());
    assert!(!coord(1, 0, 0).is_supported());
    assert!(!coord(0, 1, 0).is_supported());
    assert!(coord(7, 7, 3).is_supported());
    assert!(!coord(8, 0, 3).is_supported());
    assert!(!coord(0, 8, 3).is_supported());
    assert!(coord(u32::MAX, u32::MAX, 32).is_supported());
    assert!(coord(u32::MAX, 0, 200).is_supported());
    assert!(!coord(1 << 31, 0, 31).is_supported());
    assert!(coord((1 << 31) - 1, 0, 31).is_supported());
}

#[test]
fn tile_keys_are_distinct() {
    let a = coord(1, 2, 3);
    let b = coord(2, 1, 3);
    let c = coord(1, 2, 4);
    assert_ne!(a.key(), b.key());
    assert_ne!(a.key(), c.key());
    assert_ne!(b.key(), c.key());
    assert_eq!(a.key(), coord(1, 2, 3).key());
    assert_eq!(coord(5, 0, 0).key(), 5);
    assert_eq!(coord(0, 1, 0).key(), 1u128 << 32);
    assert_eq!(coord(0, 0, 1).key(), 1u128 << 64);
}

#[test]
fn pool_hands_out_the_lowest_free_slot() {
    let mut pool = WorkerPool::new(3);
    assert_eq!(pool.size(), 3);
    assert!(pool.is_idle());
    assert!(!pool.is_busy());
    assert_eq!(pool.draw_request(coord(0, 0, 1)), Some(0));
    assert_eq!(pool.draw_request(coord(1, 0, 1)), Some(1));
    assert!(!pool.is_idle());
    assert_eq!(pool.draw_request(coord(0, 1, 1)), Some(2));
    assert!(pool.is_busy());
    assert_eq!(pool.draw_request(coord(1, 1, 1)), None);
    assert_eq!(pool.job(1), Some(coord(1, 0, 1)));
    pool.release(1);
    assert_eq!(pool.job(1), None);
    assert!(!pool.is_busy());
    assert_eq!(pool.free_slot(), Some(1));
    assert_eq!(pool.draw_request(coord(1, 1, 1)), Some(1));
    pool.release(0);
    pool.release(1);
    pool.release(2);
    assert!(pool.is_idle());
}

#[test]
fn cache_keeps_one_state_per_tile() {
    let mut cache: TileCache<u32> = TileCache::new();
    assert!(cache.get(&coord(0, 0, 0)).is_none());
    cache.insert(coord(0, 0, 0), TileState::Collecting);
    cache.insert(coord(1, 0, 1), TileState::Ready(7));
    assert!(matches!(cache.get(&coord(0, 0, 0)), Some(TileState::Collecting)));
    assert!(matches!(cache.get(&coord(1, 0, 1)), Some(TileState::Ready(7))));
    cache.insert(coord(0, 0, 0), TileState::Empty);
    assert!(matches!(cache.get(&coord(0, 0, 0)), Some(TileState::Empty)));
    assert!(cache.get(&coord(0, 1, 1)).is_none());
}

#[test]
fn job_reports_each_step_in_order() {
    let c = coord(0, 0, 0);
    let (mut job, first) = RenderJob::start::<Vec<u8>>(c);
    assert!(matches!(first, ProgressReport::Collecting(t) if t == c));
    assert_eq!(job.stage, JobStage::Collecting);
    let r = job.entities_collected::<Vec<u8>>(true);
    assert!(matches!(r, ProgressReport::Styling(t) if t == c));
    let r = job.entities_styled::<Vec<u8>>(true);
    assert!(matches!(r, ProgressReport::Drawing(t) if t == c));
    assert!(!job.is_finished());
    let r = job.tile_drawn(Some(vec![1u8, 2, 3]));
    assert!(matches!(r, ProgressReport::Done(t, ref b) if t == c && *b == vec![1u8, 2, 3]));
    assert!(job.is_finished());
    assert_eq!(job.coord, c);
}

#[test]
fn job_without_entities_ends_empty() {
    let c = coord(3, 2, 2);
    let (mut job, _) = RenderJob::start::<u8>(c);
    let r = job.entities_collected::<u8>(false);
    assert!(matches!(r, ProgressReport::EmptyResult(t) if t == c));
    assert!(job.is_finished());

    let (mut job, _) = RenderJob::start::<u8>(c);
    job.entities_collected::<u8>(true);
    let r = job.entities_styled::<u8>(false);
    assert!(matches!(r, ProgressReport::EmptyResult(t) if t == c));
    assert_eq!(job.stage, JobStage::Finished);
}

#[test]
fn job_whose_drawing_fails_ends_failed() {
    let c = coord(1, 1, 1);
    let (mut job, _) = RenderJob::start::<u8>(c);
    job.entities_collected::<u8>(true);
    job.entities_styled::<u8>(true);
    let r = job.tile_drawn::<u8>(None);
    assert!(matches!(r, ProgressReport::Failed(t) if t == c));
    assert!(job.is_finished());
}

#[test]
fn new_provider_is_idle_and_empty() {
    let p = LocalOSMTiles::new(4, images());
    assert_eq!(p.pool_size(), 4);
    assert!(p.is_idle());
    assert!(!p.is_busy());
    assert!(p.state(&coord(0, 0, 0)).is_none());
}

#[test]
fn two_slots_three_tiles_in_one_frame() {
    let mut p = LocalOSMTiles::new(2, images());
    let a = coord(0, 0, 1);
    let b = coord(1, 0, 1);
    let c = coord(0, 1, 1);

    let ra = p.at(a);
    let rb = p.at(b);
    let rc = p.at(c);
    assert_eq!(ra.dispatch, Some(DrawJob { slot: 0, coord: a }));
    assert_eq!(rb.dispatch, Some(DrawJob { slot: 1, coord: b }));
    assert_eq!(rc.dispatch, None);
    assert_eq!(ra.texture, Some(b"waiting".to_vec()));
    assert_eq!(rb.texture, Some(b"waiting".to_vec()));
    assert_eq!(rc.texture, Some(b"waiting".to_vec()));
    assert!(is_waiting(p.state(&a)));
    assert!(is_waiting(p.state(&b)));
    assert!(p.state(&c).is_none());
    assert!(p.is_busy());

    assert!(p.apply_report(0, ProgressReport::Collecting(a)));
    assert!(p.apply_report(1, ProgressReport::Collecting(b)));
    assert!(matches!(p.state(&a), Some(TileState::Collecting)));
    assert!(matches!(p.state(&b), Some(TileState::Collecting)));

    // Still no free slot: the third tile waits.
    let rc = p.at(c);
    assert_eq!(rc.dispatch, None);
    assert!(p.state(&c).is_none());

    // Slot 0 finishes; the next frame hands the third tile to it.
    assert!(p.apply_report(0, ProgressReport::EmptyResult(a)));
    assert!(!p.is_busy());
    let rc = p.at(c);
    assert_eq!(rc.dispatch, Some(DrawJob { slot: 0, coord: c }));
    assert!(is_waiting(p.state(&c)));
}

#[test]
fn empty_tile_shows_the_empty_image_for_good() {
    let mut p = LocalOSMTiles::new(1, images());
    let c = coord(5, 5, 3);
    let r = p.at(c);
    assert_eq!(r.dispatch, Some(DrawJob { slot: 0, coord: c }));
    assert!(p.apply_report(0, ProgressReport::Collecting(c)));
    assert!(p.apply_report(0, ProgressReport::EmptyResult(c)));
    assert!(p.is_idle());
    for _ in 0..5 {
        let r = p.at(c);
        assert_eq!(r.texture, Some(b"empty".to_vec()));
        assert_eq!(r.dispatch, None);
    }
    assert!(matches!(p.state(&c), Some(TileState::Empty)));
    assert!(p.is_idle());
}

#[test]
fn rendered_tile_goes_through_every_stage() {
    let mut p = LocalOSMTiles::new(1, images());
    let c = coord(0, 0, 0);
    let bytes = vec![0x89u8, b'P', b'N', b'G'];

    assert!(p.state(&c).is_none());
    let r = p.at(c);
    let job = r.dispatch.unwrap();
    assert_eq!(job, DrawJob { slot: 0, coord: c });
    assert!(is_waiting(p.state(&c)));

    let (mut render, report) = RenderJob::start::<Vec<u8>>(job.coord);
    assert!(p.apply_report(job.slot, report));
    assert!(matches!(p.state(&c), Some(TileState::Collecting)));
    assert_eq!(p.at(c).texture, Some(b"collecting".to_vec()));

    assert!(p.apply_report(job.slot, render.entities_collected(true)));
    assert!(matches!(p.state(&c), Some(TileState::Styling)));
    assert_eq!(p.at(c).texture, Some(b"styling".to_vec()));

    assert!(p.apply_report(job.slot, render.entities_styled(true)));
    assert!(matches!(p.state(&c), Some(TileState::Drawing)));
    assert_eq!(p.at(c).texture, Some(b"drawing".to_vec()));

    assert!(p.apply_report(job.slot, render.tile_drawn(Some(bytes.clone()))));
    assert!(matches!(p.state(&c), Some(TileState::Ready(ref b)) if *b == bytes));
    let r = p.at(c);
    assert_eq!(r.texture, Some(bytes.clone()));
    assert_eq!(r.dispatch, None);
    assert!(p.is_idle());
}

#[test]
fn failed_drawing_frees_the_slot() {
    let mut p = LocalOSMTiles::new(1, images());
    let c = coord(1, 0, 1);
    let job = p.at(c).dispatch.unwrap();
    let (mut render, report) = RenderJob::start::<Vec<u8>>(job.coord);
    p.apply_report(job.slot, report);
    p.apply_report(job.slot, render.entities_collected(true));
    p.apply_report(job.slot, render.entities_styled(true));
    assert!(p.is_busy());
    assert!(p.apply_report(job.slot, render.tile_drawn(None)));
    assert!(p.is_idle());
    assert!(matches!(p.state(&c), Some(TileState::Failed)));
    let r = p.at(c);
    assert_eq!(r.texture, Some(b"failed".to_vec()));
    assert_eq!(r.dispatch, None);
    // The free slot goes to the next tile.
    let d = coord(0, 0, 1);
    assert_eq!(p.at(d).dispatch, Some(DrawJob { slot: 0, coord: d }));
}

#[test]
fn repeated_queries_while_pending_answer_the_same() {
    let mut p = LocalOSMTiles::new(1, images());
    let a = coord(0, 0, 2);
    let b = coord(1, 0, 2);
    let first = p.at(a);
    assert!(first.dispatch.is_some());
    let first_b = p.at(b);
    assert!(first_b.dispatch.is_none());
    for _ in 0..3 {
        let again = p.at(a);
        assert_eq!(again.texture, first.texture);
        assert_eq!(again.dispatch, None);
        let again_b = p.at(b);
        assert_eq!(again_b.texture, first_b.texture);
        assert_eq!(again_b.dispatch, None);
    }
    assert!(is_waiting(p.state(&a)));
    assert!(p.state(&b).is_none());
}

#[test]
fn tiles_in_flight_never_exceed_the_pool() {
    let mut p = LocalOSMTiles::new(3, images());
    let mut dispatched = Vec::new();
    for x in 0..4u32 {
        for y in 0..4u32 {
            if let Some(job) = p.at(coord(x, y, 2)).dispatch {
                dispatched.push(job);
            }
        }
    }
    assert_eq!(dispatched.len(), 3);
    let mut in_flight = 0;
    for x in 0..4u32 {
        for y in 0..4u32 {
            if let Some(s) = p.state(&coord(x, y, 2)) {
                if !s.is_terminal() {
                    in_flight += 1;
                }
            }
        }
    }
    assert_eq!(in_flight, 3);
    let slots: Vec<usize> = dispatched.iter().map(|j| j.slot).collect();
    assert_eq!(slots, vec![0, 1, 2]);
}

#[test]
fn tiles_outside_the_grid_are_unsupported() {
    let mut p = LocalOSMTiles::new(1, images());
    let outside = coord(4, 0, 2);
    let r = p.at(outside);
    assert_eq!(r.texture, None);
    assert_eq!(r.dispatch, None);
    assert!(p.state(&outside).is_none());
    assert!(p.is_idle());

    // Same answer with the pool busy.
    assert!(p.at(coord(0, 0, 2)).dispatch.is_some());
    assert!(p.is_busy());
    let r = p.at(coord(0, 4, 2));
    assert_eq!(r.texture, None);
    assert_eq!(r.dispatch, None);
    let r = p.at(coord(1, 0, 0));
    assert_eq!(r.texture, None);
}

#[test]
fn a_tile_in_flight_is_never_handed_out_twice() {
    let mut p = LocalOSMTiles::new(2, images());
    let c = coord(2, 1, 2);
    assert_eq!(p.at(c).dispatch, Some(DrawJob { slot: 0, coord: c }));
    assert_eq!(p.at(c).dispatch, None);
    assert!(p.apply_report(0, ProgressReport::Collecting(c)));
    assert_eq!(p.at(c).dispatch, None);
    assert!(p.apply_report(0, ProgressReport::Styling(c)));
    assert_eq!(p.at(c).dispatch, None);
    assert!(!p.is_busy());
    assert!(!p.is_idle());
}

#[test]
fn reports_that_do_not_fit_are_ignored() {
    let mut p = LocalOSMTiles::new(2, images());
    let c = coord(0, 0, 1);
    let d = coord(1, 1, 1);
    p.at(c);
    // Wrong slot, unknown slot, tile nobody works on.
    assert!(!p.apply_report(1, ProgressReport::Collecting(c)));
    assert!(!p.apply_report(9, ProgressReport::Collecting(c)));
    assert!(!p.apply_report(0, ProgressReport::Collecting(d)));
    assert!(is_waiting(p.state(&c)));
    // Backwards.
    assert!(p.apply_report(0, ProgressReport::Drawing(c)));
    assert!(!p.apply_report(0, ProgressReport::Styling(c)));
    assert!(!p.apply_report(0, ProgressReport::Drawing(c)));
    assert!(matches!(p.state(&c), Some(TileState::Drawing)));
    // A terminal tile never changes.
    assert!(p.apply_report(0, ProgressReport::Done(c, vec![1u8])));
    assert!(!p.apply_report(0, ProgressReport::EmptyResult(c)));
    assert!(!p.apply_report(0, ProgressReport::Done(c, vec![2u8])));
    assert!(matches!(p.state(&c), Some(TileState::Ready(ref b)) if *b == vec![1u8]));
    assert_eq!(p.at(c).texture, Some(vec![1u8]));
}

#[test]
fn reports_are_taken_in_order() {
    let mut p = LocalOSMTiles::new(2, images());
    let a = coord(0, 0, 1);
    let b = coord(1, 0, 1);
    p.at(a);
    p.at(b);
    p.apply_reports(vec![
        (0, ProgressReport::Collecting(a)),
        (1, ProgressReport::Collecting(b)),
        (0, ProgressReport::Styling(a)),
        (1, ProgressReport::EmptyResult(b)),
        (1, ProgressReport::Styling(b)),
        (0, ProgressReport::Drawing(a)),
    ]);
    assert!(matches!(p.state(&a), Some(TileState::Drawing)));
    assert!(matches!(p.state(&b), Some(TileState::Empty)));
    assert!(!p.is_busy());
    assert!(!p.is_idle());
    p.apply_reports(vec![(0, ProgressReport::Done(a, vec![9u8]))]);
    assert!(p.is_idle());
    assert_eq!(p.at(a).texture, Some(vec![9u8]));
    assert_eq!(p.at(b).texture, Some(b"empty".to_vec()));
}

#[test]
fn only_running_threads_are_told_to_stop() {
    assert_eq!(threads_to_terminate(&vec![false, true, false, false]), vec![0, 2, 3]);
    assert_eq!(threads_to_terminate(&vec![true, true]), Vec::<usize>::new());
    assert_eq!(threads_to_terminate(&vec![]), Vec::<usize>::new());
}

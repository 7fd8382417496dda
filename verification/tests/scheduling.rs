//! Mesh jobs, frames, looks and the crosshair.

use cubic_render::frame::{
    begin_frame, plan_frame, FrameFailure, FramePlan, FrameStatus, SurfaceState,
};
use cubic_render::grid::ChunkCoordinate;
use cubic_render::hud::{
    automatic_gui_scale, has_renderable_area, CrosshairPlacement, CROSSHAIR_SHADER,
};
use cubic_render::look::{LookAction, LookTracker};
use cubic_render::scheduler::{
    lane_after, lane_to_try, mark_dirty_with_neighbors, mesh_dispatch_capacity_available,
    mesh_dispatch_permitted, mesh_integration_permitted, mesh_priority, neighbors_including,
    next_mesh_candidate, queued_jobs, report_due, worker_layout, ChunkTable, MeshDispatch,
    MeshProgress, MeshScheduler, MAX_MESH_DISPATCHES_PER_PREPARE, MAX_MESH_RESULTS_PER_PREPARE,
    MAX_PENDING_MESH_JOBS,
};
use cubic_render::statistics::{CpuTime, MeshStatistics};

fn millis(value: u64) -> CpuTime {
    CpuTime::new(value / 1000, (value % 1000) as u32 * 1_000_000)
}

fn table<T>(entries: Vec<(ChunkCoordinate, T)>) -> ChunkTable<T> {
    let mut table = ChunkTable::new();
    for (coordinate, value) in entries {
        table.insert(coordinate, value);
    }
    table
}

#[test]
fn mesh_candidates_prioritize_near_chunks_and_coalesce_revisions() {
    let origin = ChunkCoordinate::new(0, 0);
    let near = ChunkCoordinate::new(1, 0);
    let far = ChunkCoordinate::new(8, 3);
    let mut dirty = table(vec![(far, 1), (near, 2)]);
    dirty.insert(near, 3);

    assert_eq!(dirty.entries.len(), 2);
    assert_eq!(
        next_mesh_candidate(&dirty, &ChunkTable::new(), Some(origin)),
        Some((near, 3))
    );
}

#[test]
fn equal_distance_mesh_priority_is_deterministic() {
    let origin = ChunkCoordinate::new(0, 0);
    let dirty = table(vec![
        (ChunkCoordinate::new(1, 0), 1),
        (ChunkCoordinate::new(0, 1), 2),
        (ChunkCoordinate::new(0, -1), 3),
        (ChunkCoordinate::new(-1, 0), 4),
    ]);
    let mut pending = ChunkTable::new();
    let mut selected = Vec::new();
    while let Some((coordinate, _)) = next_mesh_candidate(&dirty, &pending, Some(origin)) {
        selected.push(coordinate);
        pending.insert(coordinate, ());
    }

    assert_eq!(
        selected,
        [
            ChunkCoordinate::new(-1, 0),
            ChunkCoordinate::new(0, -1),
            ChunkCoordinate::new(0, 1),
            ChunkCoordinate::new(1, 0),
        ]
    );
}

#[test]
fn mesh_priority_follows_the_chunk_of_the_player() {
    let west = ChunkCoordinate::new(-5, 0);
    let east = ChunkCoordinate::new(5, 0);
    let dirty = table(vec![(west, 1), (east, 2)]);
    let pending = ChunkTable::new();
    assert_eq!(
        next_mesh_candidate(&dirty, &pending, Some(ChunkCoordinate::new(-5, 0))),
        Some((west, 1))
    );
    assert_eq!(
        next_mesh_candidate(&dirty, &pending, Some(ChunkCoordinate::new(5, 0))),
        Some((east, 2))
    );
    assert_eq!(next_mesh_candidate(&dirty, &pending, None), Some((west, 1)));
    assert_eq!(
        mesh_priority(east, Some(ChunkCoordinate::new(1, 3))),
        (25, 5, 0)
    );
}

#[test]
fn mesh_integration_allows_initial_progress_and_dispatch_respects_deadline() {
    assert!(mesh_integration_permitted(0, CpuTime::new(1, 0)));
    assert!(mesh_integration_permitted(1, millis(3)));
    assert!(!mesh_integration_permitted(1, millis(4)));
    assert!(!mesh_integration_permitted(
        MAX_MESH_RESULTS_PER_PREPARE,
        CpuTime::new(0, 0)
    ));
    assert!(!mesh_dispatch_permitted(0, CpuTime::new(1, 0)));
    assert!(mesh_dispatch_permitted(0, millis(3)));
    assert!(mesh_dispatch_permitted(1, millis(3)));
    assert!(!mesh_dispatch_permitted(1, millis(4)));
    assert!(!mesh_dispatch_permitted(
        MAX_MESH_DISPATCHES_PER_PREPARE,
        CpuTime::new(0, 0)
    ));
    assert!(mesh_dispatch_capacity_available(MAX_PENDING_MESH_JOBS - 1));
    assert!(!mesh_dispatch_capacity_available(MAX_PENDING_MESH_JOBS));
}

#[test]
fn worker_layout_uses_modest_parallelism_without_exceeding_the_job_bound() {
    assert_eq!(worker_layout(1), (1, 31));
    assert_eq!(worker_layout(4), (4, 7));
    assert_eq!(worker_layout(128), (4, 7));
    for available in 1..=128 {
        let (workers, queued_per_worker) = worker_layout(available);
        assert!(workers * (queued_per_worker + 1) <= MAX_PENDING_MESH_JOBS);
    }
}

#[test]
fn lanes_are_tried_in_turn() {
    assert_eq!(lane_to_try(2, 0, 4), 2);
    assert_eq!(lane_to_try(2, 3, 4), 1);
    assert_eq!(lane_after(3, 4), 0);
    assert_eq!(lane_after(1, 4), 2);
}

#[test]
fn progress_counts_meshes_and_their_times() {
    let mut progress = MeshProgress::new();
    progress.completed = 116;
    progress.last_info_completed = 100;
    assert_eq!(progress.completed_since_report(), 16);
    assert_eq!(queued_jobs(32, 4), 28);
    assert_eq!(queued_jobs(3, 4), 0);
    progress.record(Some(MeshStatistics {
        quads_emitted: 5,
        cpu_time: millis(120),
        ..MeshStatistics::new()
    }));
    progress.record(None);
    assert_eq!(progress.completed, 118);
    assert_eq!(progress.statistics.quads_emitted, 5);
    assert_eq!(progress.maximum_cpu_time, millis(120));
    assert_eq!(progress.total_cpu_time, millis(120));
}

#[test]
fn progress_adds_up_every_counter_of_the_finished_meshes() {
    let mesh = MeshStatistics {
        positions_visited: 1,
        air_skipped: 2,
        non_air_blocks: 3,
        fully_occluded_fast_rejected: 4,
        model_processed: 5,
        geometry_emitting: 6,
        neighbor_checks: 7,
        model_selections: 8,
        quads_emitted: 9,
        cpu_time: millis(10),
    };
    let mut progress = MeshProgress::new();
    progress.record(Some(mesh));
    progress.record(None);
    progress.record(Some(mesh));
    assert_eq!(
        progress.statistics,
        MeshStatistics {
            positions_visited: 2,
            air_skipped: 4,
            non_air_blocks: 6,
            fully_occluded_fast_rejected: 8,
            model_processed: 10,
            geometry_emitting: 12,
            neighbor_checks: 14,
            model_selections: 16,
            quads_emitted: 18,
            cpu_time: millis(20),
        }
    );
    assert_eq!(progress.completed, 3);
}

#[test]
fn progress_reporting_is_periodic_not_per_mesh() {
    assert_eq!(report_due(millis(500), millis(500), false), (false, false));
    assert_eq!(
        report_due(CpuTime::new(2, 0), CpuTime::new(2, 0), false),
        (false, true)
    );
    assert_eq!(
        report_due(CpuTime::new(10, 0), CpuTime::new(10, 0), false),
        (true, true)
    );
    assert_eq!(
        report_due(CpuTime::new(0, 0), CpuTime::new(0, 0), true),
        (true, true)
    );
}

#[test]
fn neighbor_set_includes_four_horizontal_boundaries() {
    let c = ChunkCoordinate::new(2, -3);
    assert_eq!(
        neighbors_including(c),
        [
            c,
            ChunkCoordinate::new(1, -3),
            ChunkCoordinate::new(3, -3),
            ChunkCoordinate::new(2, -4),
            ChunkCoordinate::new(2, -2)
        ]
    );
}

#[test]
fn neighbor_arrival_replacement_and_removal_keep_both_chunk_sides_dirty() {
    let center = ChunkCoordinate::new(0, 0);
    let east = ChunkCoordinate::new(1, 0);
    let mut dirty = ChunkTable::new();
    mark_dirty_with_neighbors(&mut dirty, center, 1);
    assert_eq!(dirty.get(center), Some(&1));
    assert_eq!(dirty.get(east), Some(&1));

    mark_dirty_with_neighbors(&mut dirty, east, 2);
    assert_eq!(dirty.get(center), Some(&2));
    assert_eq!(dirty.get(east), Some(&2));

    mark_dirty_with_neighbors(&mut dirty, east, 3);
    assert_eq!(dirty.get(center), Some(&3));
    assert_eq!(dirty.get(east), Some(&3));
}

#[test]
fn chunks_are_meshed_once_for_each_change() {
    let here = ChunkCoordinate::new(0, 0);
    let mut scheduler = MeshScheduler::new();
    scheduler.begin_update(true, 4);
    scheduler.load(here);
    let mut revision = None;
    loop {
        match scheduler.next_dispatch(Some(here)) {
            MeshDispatch::Mesh {
                coordinate,
                revision: found,
            } => {
                assert_eq!(coordinate, here);
                scheduler.dispatched(coordinate);
                revision = Some(found);
            }
            MeshDispatch::Forget(_) => {}
            MeshDispatch::Idle => break,
        }
    }
    assert!(scheduler.has_pending_work(true, false));
    // A mesh of another generation is not used, nor an old one.
    assert!(!scheduler.integrate(here, 3, revision.unwrap()));
    scheduler.load(here);
    assert!(!scheduler.integrate(here, 4, revision.unwrap()));
}

#[test]
fn a_mesh_of_the_latest_change_is_used() {
    let here = ChunkCoordinate::new(0, 0);
    let mut scheduler = MeshScheduler::new();
    scheduler.begin_update(true, 1);
    scheduler.load(here);
    let revision = loop {
        match scheduler.next_dispatch(None) {
            MeshDispatch::Mesh { coordinate, revision } => {
                scheduler.dispatched(coordinate);
                break revision;
            }
            MeshDispatch::Forget(_) => {}
            MeshDispatch::Idle => panic!("nothing to mesh"),
        }
    };
    assert!(scheduler.integrate(here, 1, revision));
    scheduler.unload(here);
    assert!(!scheduler.chunks.contains(here));
}

#[test]
fn frames_are_painted_only_on_a_surface_that_is_there() {
    assert_eq!(begin_frame(false, true), Ok(true));
    assert_eq!(begin_frame(false, false), Ok(false));
    assert_eq!(begin_frame(true, true), Err(FrameFailure::OutOfMemory));
    assert_eq!(
        plan_frame(SurfaceState::Success),
        Ok(FramePlan {
            paint: true,
            recreate: false,
            reconfigure: false,
            status: FrameStatus::Presented
        })
    );
    assert_eq!(
        plan_frame(SurfaceState::Timeout).unwrap().status,
        FrameStatus::Skipped
    );
    assert!(plan_frame(SurfaceState::Lost).unwrap().recreate);
    assert_eq!(
        plan_frame(SurfaceState::Validation),
        Err(FrameFailure::SurfaceValidation)
    );
}

#[test]
fn looks_ahead_of_the_world_are_kept() {
    let mut tracker = LookTracker::new(5);
    assert!(tracker.preview(6, true));
    assert!(!tracker.preview(6, true));
    assert!(!tracker.preview(7, false));
    assert_eq!(tracker.produced, 6);
    assert_eq!(tracker.apply(5, false), LookAction::Keep);
    assert_eq!(tracker.apply(6, false), LookAction::Keep);
    assert_eq!(tracker.acknowledged, 6);
    assert_eq!(tracker.apply(8, false), LookAction::Adopt);
    assert_eq!(tracker.produced, 8);
    assert_eq!(tracker.apply(3, true), LookAction::Rebase);
}

#[test]
fn vanilla_crosshair_uses_integer_centered_fifteen_pixel_sprite() {
    assert_eq!(
        CrosshairPlacement::new(1280, 720),
        CrosshairPlacement {
            gui_scale: 3,
            gui_width: 427,
            gui_height: 240,
            origin_x: 618,
            origin_y: 336,
            size: 45,
        }
    );
    assert_eq!(
        CrosshairPlacement::new(1279, 719),
        CrosshairPlacement {
            gui_scale: 2,
            gui_width: 640,
            gui_height: 360,
            origin_x: 624,
            origin_y: 344,
            size: 30,
        }
    );
    let resized = CrosshairPlacement::new(1920, 1080);
    assert_eq!(resized.gui_scale, 4);
    assert_eq!((resized.gui_width, resized.gui_height), (480, 270));
    assert_eq!((resized.origin_x, resized.origin_y), (928, 508));
    assert_eq!(resized.size, 60);
    assert_eq!(automatic_gui_scale(1280, 720), 3);
}

#[test]
fn crosshair_shader_discards_only_transparent_texels_and_preserves_sample_alpha() {
    assert!(CROSSHAIR_SHADER.contains("if colour.a == 0.0"));
    assert!(CROSSHAIR_SHADER.contains("return colour;"));
}

#[test]
fn only_two_non_zero_dimensions_are_renderable() {
    assert!(has_renderable_area(1, 1));
    assert!(!has_renderable_area(0, 1));
    assert!(!has_renderable_area(1, 0));
    assert!(!has_renderable_area(0, 0));
}

#[test]
fn mesh_priority_tracks_authoritative_chunk_and_reset() {
    let west = ChunkCoordinate::new(-5, 0);
    let east = ChunkCoordinate::new(5, 0);
    let dirty = table(vec![(west, 1), (east, 2)]);
    let pending = table(vec![]);
    let player_chunk = |x: f64| ChunkCoordinate::new((x / 16.0).floor() as i32, 0);

    assert_eq!(player_chunk(-0.1), ChunkCoordinate::new(-1, 0));
    assert_eq!(
        next_mesh_candidate(&dirty, &pending, Some(player_chunk(-80.0))),
        Some((west, 1))
    );
    assert_eq!(
        next_mesh_candidate(&dirty, &pending, Some(player_chunk(80.0))),
        Some((east, 2))
    );
    assert_eq!(next_mesh_candidate(&dirty, &pending, None), Some((west, 1)));
}

#[test]
fn mesh_job_channel_bound_remains_explicit() {
    let (sender, _receiver) = std::sync::mpsc::sync_channel::<()>(MAX_PENDING_MESH_JOBS);
    for _ in 0..MAX_PENDING_MESH_JOBS {
        sender.try_send(()).expect("bounded test slot");
    }
    assert!(matches!(
        sender.try_send(()),
        Err(std::sync::mpsc::TrySendError::Full(()))
    ));
}

#[test]
fn progress_snapshot_distinguishes_loaded_meshed_pending_queued_and_active() {
    let mut progress = MeshProgress::new();
    progress.completed = 116;
    progress.last_info_completed = 100;
    progress.total_cpu_time = millis(5_800);
    progress.maximum_cpu_time = millis(120);
    let snapshot = progress.snapshot(329, 116, 213, 32, 4);
    assert_eq!(snapshot.loaded, 329);
    assert_eq!(snapshot.meshed, 116);
    assert_eq!(snapshot.pending, 213);
    assert_eq!(snapshot.queued, 28);
    assert_eq!(snapshot.active, 4);
    assert_eq!(snapshot.completed, 116);
    // Two seconds after the last report.
    assert_eq!(snapshot.completed_since_report as f64 / 2.0, 8.0);
    let total = snapshot.total_cpu_time;
    let milliseconds = total.seconds as f64 * 1000.0 + f64::from(total.nanoseconds) / 1_000_000.0;
    assert_eq!(milliseconds / snapshot.completed as f64, 50.0);
    assert_eq!(snapshot.maximum_cpu_time, millis(120));
}

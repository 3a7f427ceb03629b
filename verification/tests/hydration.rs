use twodrive::fs::hydration::{
    hydrate_pending_pins, pin_path, unpin_path, Hydration, HydrationError, HydrationEvent,
    HydrationOrder, Phase, Seen,
};
use twodrive::fs::record::{FileRecord, FileState, MetadataEntry};

const SIZE: usize = 1_048_576;
const CHUNK: usize = 65_536;

fn record(id: &str, path: &str, size: u64, is_dir: bool) -> FileRecord {
    let name = path.rsplit('/').next().unwrap().to_string();
    FileRecord {
        metadata: MetadataEntry {
            remote_id: id.to_string(),
            path: path.to_string(),
            parent_path: "/".to_string(),
            name,
            is_dir,
            size,
            etag: "etag".to_string(),
            modified_unix: 0,
        },
        state: FileState::OnlineOnly,
        cache_path: None,
        cloud_remote_id: Some(id.to_string()),
        local_mode: None,
        effective_pinned: false,
    }
}

/// What a store and a cloud keep, and how they carry out the orders.
struct World {
    record: FileRecord,
    generation: i64,
    partial: Option<Vec<u8>>,
    content: Option<Vec<u8>>,
    bytes_sent: usize,
    release_after: Option<usize>,
}

impl World {
    fn new(pinned: bool) -> World {
        let mut record = record("stream", "/stream.bin", SIZE as u64, false);
        record.effective_pinned = pinned;
        World {
            record,
            generation: 0,
            partial: None,
            content: None,
            bytes_sent: 0,
            release_after: None,
        }
    }

    fn release(&mut self) {
        self.generation += 1;
        self.content = None;
        self.record.cache_path = None;
        self.record.state = FileState::OnlineOnly;
        self.record.effective_pinned = false;
    }

    fn hydrate(&mut self, generation: i64) -> Result<Vec<u8>, HydrationError> {
        let (mut work, mut order) =
            Hydration::hydrate_generation(self.record.clone(), generation);
        loop {
            let event = match order {
                HydrationOrder::AskGeneration => HydrationEvent::Generation(self.generation),
                HydrationOrder::Refresh => {
                    HydrationEvent::Refreshed(Some(self.record.clone()), self.content.is_some())
                }
                HydrationOrder::Touch => HydrationEvent::Touched,
                HydrationOrder::Begin => {
                    HydrationEvent::Began(self.generation == generation)
                }
                HydrationOrder::Prepare(name) => {
                    assert_eq!(name, "stream");
                    self.partial = Some(Vec::new());
                    HydrationEvent::Prepared
                }
                HydrationOrder::Download(id, size) => {
                    assert_eq!(id, "stream");
                    assert_eq!(size, SIZE as u64);
                    self.chunk()
                }
                HydrationOrder::Continue => {
                    if self.partial.as_ref().unwrap().len() == SIZE {
                        HydrationEvent::Downloaded(true)
                    } else {
                        self.chunk()
                    }
                }
                HydrationOrder::Stop => HydrationEvent::Downloaded(false),
                HydrationOrder::Commit => {
                    if self.generation == generation {
                        self.content = self.partial.take();
                        self.record.cache_path = Some("/cache/stream".to_string());
                        self.record.state = FileState::Cached;
                        HydrationEvent::Committed(true)
                    } else {
                        HydrationEvent::Committed(false)
                    }
                }
                HydrationOrder::Clean => {
                    self.partial = None;
                    HydrationEvent::Cleaned
                }
                HydrationOrder::Present(path) => {
                    assert_eq!(path, "/cache/stream");
                    return Ok(self.content.clone().unwrap());
                }
                HydrationOrder::Hydrated => return Ok(self.content.clone().unwrap()),
                HydrationOrder::Fail(e) => return Err(e),
                HydrationOrder::Nothing => panic!("an order was not answered"),
            };
            let next = work.next(event);
            work = next.0;
            order = next.1;
        }
    }

    fn chunk(&mut self) -> HydrationEvent {
        let partial = self.partial.as_mut().unwrap();
        partial.extend_from_slice(&[0x51; CHUNK]);
        self.bytes_sent += CHUNK;
        if self.release_after == Some(self.bytes_sent) {
            self.release_after = None;
            self.release();
        }
        HydrationEvent::Chunk(100)
    }
}

fn check_release_stops_streaming_download(pinned: bool) {
    let mut world = World::new(pinned);
    let old_generation = world.generation;
    world.release_after = Some(CHUNK);
    assert_eq!(world.hydrate(old_generation), Err(HydrationError::Canceled));
    let sent = world.bytes_sent;
    assert!(sent < SIZE);
    assert!(world.partial.is_none());
    assert!(world.hydrate(old_generation).is_err());
    assert_eq!(world.bytes_sent, sent);
    let generation = world.generation;
    assert_eq!(world.hydrate(generation).unwrap(), vec![0x51; SIZE]);
}

#[test]
fn release_stops_streaming_download_cleans_partial_and_allows_new_open() {
    check_release_stops_streaming_download(false);
}

#[test]
fn release_stops_pinned_streaming_download() {
    check_release_stops_streaming_download(true);
}

#[test]
fn content_that_is_there_is_not_brought_again() {
    let mut world = World::new(false);
    assert_eq!(world.hydrate(0).unwrap().len(), SIZE);
    let sent = world.bytes_sent;
    assert_eq!(world.hydrate(0).unwrap().len(), SIZE);
    assert_eq!(world.bytes_sent, sent);
}

#[test]
fn directories_and_local_files_have_nothing_to_bring() {
    let dir = record("d", "/d", 0, true);
    let (work, order) = Hydration::hydrate_generation(dir, 3);
    assert!(matches!(order, HydrationOrder::Fail(HydrationError::Directory)));
    assert_eq!(work.phase, Phase::Ended);

    let mut local = record("local-upload-1", "/l", 4, false);
    local.cloud_remote_id = None;
    let work = Hydration { record: local, generation: 0, phase: Phase::Preparing };
    let (work, order) = work.next(HydrationEvent::Prepared);
    assert!(matches!(order, HydrationOrder::Fail(HydrationError::LocalOnly)));
    assert_eq!(work.phase, Phase::Ended);
}

#[test]
fn the_generation_is_asked_for_ten_times_a_second() {
    let work = Hydration {
        record: record("a", "/a", 4, false),
        generation: 7,
        phase: Phase::Downloading,
    };
    let (work, order) = work.next(HydrationEvent::Chunk(99));
    assert!(matches!(order, HydrationOrder::Continue));
    let (work, order) = work.next(HydrationEvent::Chunk(100));
    assert!(matches!(order, HydrationOrder::AskGeneration));
    let (work, order) = work.next(HydrationEvent::Generation(8));
    assert!(matches!(order, HydrationOrder::Stop));
    let (work, order) = work.next(HydrationEvent::Downloaded(false));
    assert!(matches!(order, HydrationOrder::AskGeneration));
    let (work, order) = work.next(HydrationEvent::Generation(8));
    assert!(matches!(order, HydrationOrder::Clean));
    let (_, order) = work.next(HydrationEvent::Cleaned);
    assert!(matches!(order, HydrationOrder::Fail(HydrationError::Canceled)));
}

#[test]
fn a_failed_download_is_cleaned() {
    let work = Hydration {
        record: record("a", "/a", 4, false),
        generation: 7,
        phase: Phase::Downloading,
    };
    let (work, _) = work.next(HydrationEvent::Downloaded(false));
    let (work, order) = work.next(HydrationEvent::Generation(7));
    assert!(matches!(order, HydrationOrder::Clean));
    let (_, order) = work.next(HydrationEvent::Cleaned);
    assert!(matches!(order, HydrationOrder::Fail(HydrationError::Outside)));
}

#[test]
fn pinned_files_without_content_are_brought() {
    let mut pinned = record("a", "/a", 4, false);
    pinned.effective_pinned = true;
    let mut there = pinned.clone();
    there.metadata.remote_id = "b".to_string();
    there.cache_path = Some("/cache/b".to_string());
    there.state = FileState::Pinned;
    let loose = record("c", "/c", 4, false);
    let seen = vec![
        Seen { record: pinned, exists: false },
        Seen { record: there, exists: true },
        Seen { record: loose, exists: false },
    ];
    let ids: Vec<String> = hydrate_pending_pins(&seen)
        .into_iter()
        .map(|r| r.metadata.remote_id)
        .collect();
    assert_eq!(ids, vec!["a".to_string()]);
}

#[test]
fn a_directory_is_pinned_with_the_files_below_it() {
    let dir = record("d", "/d", 0, true);
    let mut below = vec![
        record("x", "/d/x", 1, false),
        record("s", "/d/s", 0, true),
        record("y", "/d/s/y", 1, false),
        record("z", "/d/z", 1, false),
    ];
    for r in below.iter_mut().take(3) {
        r.effective_pinned = true;
    }
    let ids: Vec<String> = pin_path(&dir, &below)
        .into_iter()
        .map(|r| r.metadata.remote_id)
        .collect();
    assert_eq!(ids, vec!["x".to_string(), "y".to_string()]);
    let file = record("f", "/f", 1, false);
    assert_eq!(pin_path(&file, &Vec::new()).len(), 1);
    assert_eq!(unpin_path(&file, 0), 1);
    assert_eq!(unpin_path(&dir, 4), 4);
}

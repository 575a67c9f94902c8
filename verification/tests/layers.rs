use bytes::Bytes;
use opendal::layers::complete::{CompleteLayer, CompletePager, CompleteReader};
use opendal::layers::prometheus::{MetricsRegistry, Operation, PrometheusLayer};
use opendal::operator::RemoveAll;
use opendal::ops::{
    BatchOperation, BytesRange, OpAppend, OpBatch, OpCopy, OpCreateDir, OpDelete, OpList,
    OpPresign, OpRead, OpRename, OpStat, OpWrite, PresignOperation,
};
use opendal::raw::accessor::Accessor;
use opendal::raw::layer::Layer;
use opendal::raw::oio::io::{Append, Page, Read, SeekFrom, Write};
use opendal::raw::rps::{
    BatchedReply, PresignedRequest, RpAppend, RpBatch, RpCopy, RpCreateDir, RpDelete, RpList,
    RpPresign, RpRead, RpRename, RpStat, RpWrite,
};
use opendal::{
    AccessorInfo, Capability, Entry, EntryMode, Error, ErrorKind, Metadata, Metakey, MetakeySet,
    Operator, Scheme,
};
use std::cell::RefCell;
use std::collections::{BTreeMap, BTreeSet};
use std::rc::Rc;
use std::sync::Arc;
use std::time::Duration;

#[derive(Default)]
struct Calls {
    reads: Vec<(String, Option<u64>, Option<u64>)>,
    stats: Vec<String>,
    lists: Vec<(String, String, Option<usize>)>,
    writes: Vec<(String, Option<u64>)>,
    written: Vec<u8>,
    closed: bool,
    aborted: bool,
    deletes: Vec<String>,
    batches: Vec<Vec<String>>,
    copies: Vec<(String, String)>,
    renames: Vec<(String, String)>,
    dirs: Vec<String>,
    presigns: Vec<(String, u64)>,
}

struct Memory {
    objects: BTreeMap<String, Vec<u8>>,
    listings: BTreeMap<(String, String), Vec<Vec<(String, EntryMode)>>>,
    directories: BTreeSet<String>,
    refused: BTreeSet<String>,
    announced: BTreeMap<String, u64>,
    broken_pages: Option<ErrorKind>,
    busy_once: RefCell<BTreeSet<String>>,
    capability: Capability,
    calls: Rc<RefCell<Calls>>,
}

impl Memory {
    fn new(capability: Capability) -> (Memory, Rc<RefCell<Calls>>) {
        let calls = Rc::new(RefCell::new(Calls::default()));
        let memory = Memory {
            objects: BTreeMap::new(),
            listings: BTreeMap::new(),
            directories: BTreeSet::new(),
            refused: BTreeSet::new(),
            announced: BTreeMap::new(),
            broken_pages: None,
            busy_once: RefCell::new(BTreeSet::new()),
            capability,
            calls: calls.clone(),
        };
        (memory, calls)
    }
}

struct MemoryReader {
    data: Vec<u8>,
    pos: usize,
}

impl Read for MemoryReader {
    fn read(&mut self, buf: &mut [u8]) -> Result<usize, Error> {
        let n = buf.len().min(self.data.len() - self.pos);
        buf[..n].copy_from_slice(&self.data[self.pos..self.pos + n]);
        self.pos += n;
        Ok(n)
    }

    fn seek(&mut self, pos: SeekFrom) -> Result<u64, Error> {
        let target = match pos {
            SeekFrom::Start(n) => n as i64,
            SeekFrom::End(d) => self.data.len() as i64 + d,
            SeekFrom::Current(d) => self.pos as i64 + d,
        };
        if target < 0 {
            return Err(Error::new(ErrorKind::Unexpected, "negative seek"));
        }
        self.pos = (target as usize).min(self.data.len());
        Ok(target as u64)
    }

    fn next(&mut self) -> Option<Result<Bytes, Error>> {
        if self.pos >= self.data.len() {
            return None;
        }
        let n = 7.min(self.data.len() - self.pos);
        let chunk = Bytes::copy_from_slice(&self.data[self.pos..self.pos + n]);
        self.pos += n;
        Some(Ok(chunk))
    }
}

struct MemoryWriter {
    calls: Rc<RefCell<Calls>>,
    fail: bool,
}

impl Write for MemoryWriter {
    fn write(&mut self, bs: Bytes) -> Result<(), Error> {
        if self.fail {
            return Err(Error::new(ErrorKind::RateLimited, "slow down"));
        }
        self.calls.borrow_mut().written.extend_from_slice(&bs);
        Ok(())
    }

    fn abort(&mut self) -> Result<(), Error> {
        self.calls.borrow_mut().aborted = true;
        Ok(())
    }

    fn close(&mut self) -> Result<(), Error> {
        self.calls.borrow_mut().closed = true;
        Ok(())
    }
}

impl Append for MemoryWriter {
    fn append(&mut self, bs: Bytes) -> Result<(), Error> {
        self.calls.borrow_mut().written.extend_from_slice(&bs);
        Ok(())
    }

    fn close(&mut self) -> Result<(), Error> {
        self.calls.borrow_mut().closed = true;
        Ok(())
    }
}

struct MemoryPager {
    pages: Vec<Vec<(String, EntryMode)>>,
    next: usize,
    broken: Option<ErrorKind>,
}

impl Page for MemoryPager {
    fn next(&mut self) -> Result<Option<Vec<Entry>>, Error> {
        if let Some(kind) = self.broken {
            return Err(Error::new(kind, "the listing broke"));
        }
        if self.next >= self.pages.len() {
            return Ok(None);
        }
        let page = &self.pages[self.next];
        self.next += 1;
        Ok(Some(page.iter().map(|(p, m)| Entry::new(p, Metadata::new(*m))).collect()))
    }
}

impl Memory {
    fn open(&self, path: &str, args: OpRead) -> Result<(RpRead, MemoryReader), Error> {
        let range = args.range();
        self.calls.borrow_mut().reads.push((path.to_string(), range.offset(), range.size()));
        let data = match self.objects.get(path) {
            Some(data) => data,
            None => return Err(Error::new(ErrorKind::NotFound, "no such object")),
        };
        let total = data.len() as u64;
        let (start, end) = match (range.offset(), range.size()) {
            (Some(o), Some(s)) => (o.min(total), (o + s).min(total)),
            (Some(o), None) => (o.min(total), total),
            (None, Some(s)) => (total.saturating_sub(s), total),
            (None, None) => (0, total),
        };
        let slice = data[start as usize..end as usize].to_vec();
        let length = self.announced.get(path).copied().unwrap_or(slice.len() as u64);
        Ok((RpRead::new(length), MemoryReader { data: slice, pos: 0 }))
    }

    fn look_up(&self, path: &str) -> Result<RpStat, Error> {
        self.calls.borrow_mut().stats.push(path.to_string());
        if self.refused.contains(path) {
            return Err(Error::new(ErrorKind::PermissionDenied, "not yours"));
        }
        if self.directories.contains(path) {
            return Ok(RpStat::new(Metadata::new(EntryMode::DIR)));
        }
        match self.objects.get(path) {
            Some(data) => Ok(RpStat::new(
                Metadata::new(EntryMode::FILE).with_content_length(data.len() as u64),
            )),
            None => Err(Error::new(ErrorKind::NotFound, "no such object")),
        }
    }

    fn pages(&self, path: &str, args: OpList) -> Result<(RpList, MemoryPager), Error> {
        self.calls.borrow_mut().lists.push((
            path.to_string(),
            args.delimiter().to_string(),
            args.limit(),
        ));
        if self.busy_once.borrow_mut().remove(path) {
            return Err(Error::new(ErrorKind::RateLimited, "busy"));
        }
        let pages = self
            .listings
            .get(&(path.to_string(), args.delimiter().to_string()))
            .cloned()
            .unwrap_or_default();
        Ok((RpList::default(), MemoryPager { pages, next: 0, broken: self.broken_pages }))
    }

    fn writer(&self, path: &str, args: OpWrite) -> Result<(RpWrite, MemoryWriter), Error> {
        self.calls.borrow_mut().writes.push((path.to_string(), args.content_length()));
        Ok((
            RpWrite::default(),
            MemoryWriter { calls: self.calls.clone(), fail: self.refused.contains(path) },
        ))
    }

    fn remove(&self, path: &str) -> Result<RpDelete, Error> {
        self.calls.borrow_mut().deletes.push(path.to_string());
        if self.refused.contains(path) {
            return Err(Error::new(ErrorKind::PermissionDenied, "not yours"));
        }
        Ok(RpDelete::default())
    }
}

impl Accessor for Memory {
    type Reader = MemoryReader;
    type BlockingReader = MemoryReader;
    type Writer = MemoryWriter;
    type BlockingWriter = MemoryWriter;
    type Appender = MemoryWriter;
    type Pager = MemoryPager;
    type BlockingPager = MemoryPager;

    fn info(&self) -> AccessorInfo {
        AccessorInfo::new(Scheme::Memory, "/", "memory", self.capability)
    }

    fn create_dir(&self, path: &str, _: OpCreateDir) -> Result<RpCreateDir, Error> {
        self.calls.borrow_mut().dirs.push(path.to_string());
        Ok(RpCreateDir::default())
    }

    fn read(&self, path: &str, args: OpRead) -> Result<(RpRead, MemoryReader), Error> {
        self.open(path, args)
    }

    fn write(&self, path: &str, args: OpWrite) -> Result<(RpWrite, MemoryWriter), Error> {
        self.writer(path, args)
    }

    fn append(&self, _: &str, _: OpAppend) -> Result<(RpAppend, MemoryWriter), Error> {
        Ok((RpAppend::default(), MemoryWriter { calls: self.calls.clone(), fail: false }))
    }

    fn stat(&self, path: &str, _: OpStat) -> Result<RpStat, Error> {
        self.look_up(path)
    }

    fn delete(&self, path: &str, _: OpDelete) -> Result<RpDelete, Error> {
        self.remove(path)
    }

    fn list(&self, path: &str, args: OpList) -> Result<(RpList, MemoryPager), Error> {
        self.pages(path, args)
    }

    fn copy(&self, from: &str, to: &str, _: OpCopy) -> Result<RpCopy, Error> {
        self.calls.borrow_mut().copies.push((from.to_string(), to.to_string()));
        Ok(RpCopy::default())
    }

    fn rename(&self, from: &str, to: &str, _: OpRename) -> Result<RpRename, Error> {
        self.calls.borrow_mut().renames.push((from.to_string(), to.to_string()));
        Ok(RpRename::default())
    }

    fn presign(&self, path: &str, args: OpPresign) -> Result<RpPresign, Error> {
        self.calls.borrow_mut().presigns.push((path.to_string(), args.expire().as_secs()));
        let method = match args.operation() {
            PresignOperation::Stat(_) => "HEAD",
            PresignOperation::Read(_) => "GET",
            PresignOperation::Write(_) => "PUT",
        };
        Ok(RpPresign::new(PresignedRequest::new(
            method,
            &format!("https://example.test/{path}"),
            vec![("host".to_string(), "example.test".to_string())],
        )))
    }

    fn batch(&self, args: OpBatch) -> Result<RpBatch, Error> {
        let ops = args.into_operation();
        self.calls.borrow_mut().batches.push(ops.iter().map(|(p, _)| p.clone()).collect());
        let results = ops
            .into_iter()
            .map(|(path, op)| {
                let BatchOperation::Delete(_) = op;
                let reply = if self.refused.contains(&path) {
                    Err(Error::new(ErrorKind::PermissionDenied, "not yours"))
                } else {
                    Ok(BatchedReply::Delete(RpDelete::default()))
                };
                (path, reply)
            })
            .collect();
        Ok(RpBatch::new(results))
    }

    fn blocking_create_dir(&self, path: &str, _: OpCreateDir) -> Result<RpCreateDir, Error> {
        self.calls.borrow_mut().dirs.push(path.to_string());
        Ok(RpCreateDir::default())
    }

    fn blocking_read(&self, path: &str, args: OpRead) -> Result<(RpRead, MemoryReader), Error> {
        self.open(path, args)
    }

    fn blocking_write(&self, path: &str, args: OpWrite) -> Result<(RpWrite, MemoryWriter), Error> {
        self.writer(path, args)
    }

    fn blocking_stat(&self, path: &str, _: OpStat) -> Result<RpStat, Error> {
        self.look_up(path)
    }

    fn blocking_delete(&self, path: &str, _: OpDelete) -> Result<RpDelete, Error> {
        self.remove(path)
    }

    fn blocking_list(&self, path: &str, args: OpList) -> Result<(RpList, MemoryPager), Error> {
        self.pages(path, args)
    }
}

fn capability(seek: bool, next: bool) -> Capability {
    Capability {
        stat: true,
        read: true,
        read_can_seek: seek,
        read_can_next: next,
        write: true,
        list: true,
        ..Capability::default()
    }
}

fn hundred() -> Vec<u8> {
    (0u8..100).collect()
}

fn big(n: usize) -> Vec<u8> {
    (0..n).map(|i| (i % 251) as u8).collect()
}

fn read_all<R: Read>(r: &mut R) -> Vec<u8> {
    let mut out = Vec::new();
    let mut buf = [0u8; 16];
    loop {
        let n = r.read(&mut buf).unwrap();
        if n == 0 {
            return out;
        }
        out.extend_from_slice(&buf[..n]);
    }
}

fn read_some<R: Read>(r: &mut R, n: usize) -> Vec<u8> {
    let mut buf = vec![0u8; n];
    let got = r.read(&mut buf).unwrap();
    buf.truncate(got);
    buf
}

fn paths(entries: &[Entry]) -> Vec<(String, EntryMode)> {
    entries.iter().map(|e| (e.path().to_string(), e.mode())).collect()
}

fn file(path: &str) -> (String, EntryMode) {
    (path.to_string(), EntryMode::FILE)
}

fn dir(path: &str) -> (String, EntryMode) {
    (path.to_string(), EntryMode::DIR)
}

fn pairs(e: &Error) -> Vec<(String, String)> {
    e.context().clone()
}

fn pair(k: &str, v: &str) -> (String, String) {
    (k.to_string(), v.to_string())
}

#[test]
fn suffix_read_asks_for_the_size_once() {
    let (mut memory, calls) = Memory::new(capability(false, true));
    memory.objects.insert("/a".to_string(), hundred());
    let acc = CompleteLayer.layer(memory);
    let args = OpRead::new().with_range(BytesRange::new(None, Some(30)));
    let (_, mut reader) = acc.read("/a", args).unwrap();
    assert!(matches!(reader, CompleteReader::NeedSeekable(_)));
    assert_eq!(calls.borrow().stats, vec!["/a".to_string()]);
    assert_eq!(calls.borrow().reads.len(), 1);
    let out = read_all(&mut reader);
    assert_eq!(out, (0x46u8..=0x63).collect::<Vec<u8>>());
    assert_eq!(calls.borrow().reads.len(), 1);
    assert_eq!(reader.seek(SeekFrom::Start(0)).unwrap(), 0);
    let out = read_all(&mut reader);
    assert_eq!(out, (70u8..100).collect::<Vec<u8>>());
    let reads = calls.borrow().reads.clone();
    assert_eq!(reads.len(), 2);
    assert_eq!(reads[1], ("/a".to_string(), Some(70), Some(30)));
}

#[test]
fn suffix_longer_than_the_object_is_the_whole_object() {
    let (mut memory, calls) = Memory::new(capability(false, false));
    memory.objects.insert("/a".to_string(), hundred());
    let acc = CompleteLayer.layer(memory);
    let args = OpRead::new().with_range(BytesRange::new(None, Some(300)));
    let (_, mut reader) = acc.read("/a", args).unwrap();
    assert!(matches!(reader, CompleteReader::NeedBoth(_)));
    assert_eq!(read_all(&mut reader), hundred());
    reader.seek(SeekFrom::Start(90)).unwrap();
    assert_eq!(read_all(&mut reader), (90u8..100).collect::<Vec<u8>>());
    assert_eq!(calls.borrow().stats.len(), 1);
}

#[test]
fn offset_ranges_need_no_stat() {
    let (mut memory, calls) = Memory::new(capability(false, true));
    memory.objects.insert("/a".to_string(), hundred());
    let acc = CompleteLayer.layer(memory);
    let args = OpRead::new().with_range(BytesRange::new(Some(10), Some(20)));
    let (_, mut reader) = acc.read("/a", args).unwrap();
    assert_eq!(read_all(&mut reader), (10u8..30).collect::<Vec<u8>>());
    assert_eq!(reader.seek(SeekFrom::End(-5)).unwrap(), 15);
    assert_eq!(read_all(&mut reader), (25u8..30).collect::<Vec<u8>>());
    let (_, mut reader) =
        acc.read("/a", OpRead::new().with_range(BytesRange::new(Some(95), None))).unwrap();
    assert_eq!(read_all(&mut reader), (95u8..100).collect::<Vec<u8>>());
    assert_eq!(calls.borrow().stats.len(), 0);
}

#[test]
fn complete_backend_is_passed_through() {
    for range in [
        BytesRange::new(None, None),
        BytesRange::new(Some(10), None),
        BytesRange::new(Some(10), Some(5)),
        BytesRange::new(None, Some(30)),
    ] {
        let (mut memory, calls) = Memory::new(capability(true, true));
        memory.objects.insert("/a".to_string(), hundred());
        let acc = CompleteLayer.layer(memory);
        let (_, mut reader) = acc.read("/a", OpRead::new().with_range(range)).unwrap();
        assert!(matches!(reader, CompleteReader::AlreadyComplete(_)));
        let _ = read_all(&mut reader);
        reader.seek(SeekFrom::Start(1)).unwrap();
        let _ = reader.next();
        assert_eq!(calls.borrow().reads.len(), 1);
        assert_eq!(calls.borrow().stats.len(), 0);
    }
}

#[test]
fn seekable_backend_is_made_to_stream() {
    let (mut memory, _) = Memory::new(capability(true, false));
    memory.objects.insert("/a".to_string(), hundred());
    let acc = CompleteLayer.layer(memory);
    let (_, mut reader) = acc.read("/a", OpRead::new()).unwrap();
    assert!(matches!(reader, CompleteReader::NeedStreamable(_)));
    let chunk = reader.next().unwrap().unwrap();
    assert_eq!(chunk.to_vec(), hundred());
    assert!(reader.next().is_none());
}

#[test]
fn forward_seek_within_threshold_reads_ahead() {
    let (mut memory, calls) = Memory::new(capability(false, true));
    memory.objects.insert("/a".to_string(), big(200_000));
    let acc = CompleteLayer.layer(memory);
    let (_, mut reader) = acc.read("/a", OpRead::new()).unwrap();
    assert_eq!(read_some(&mut reader, 10), big(200_000)[..10].to_vec());
    assert_eq!(reader.seek(SeekFrom::Current(150_000)).unwrap(), 150_010);
    assert_eq!(read_some(&mut reader, 5), big(200_000)[150_010..150_015].to_vec());
    assert_eq!(calls.borrow().reads.len(), 1);
}

#[test]
fn seek_beyond_threshold_reopens_once() {
    let (mut memory, calls) = Memory::new(capability(false, true));
    memory.objects.insert("/a".to_string(), hundred());
    let acc = CompleteLayer.layer(memory);
    let (_, reader) = acc.read("/a", OpRead::new()).unwrap();
    let mut reader = match reader {
        CompleteReader::NeedSeekable(r) => r.with_consume_threshold(8),
        _ => panic!("a range reader is expected"),
    };
    assert_eq!(read_some(&mut reader, 4), vec![0, 1, 2, 3]);
    assert_eq!(reader.seek(SeekFrom::Current(8)).unwrap(), 12);
    assert!(reader.is_live());
    assert_eq!(read_some(&mut reader, 2), vec![12, 13]);
    assert_eq!(calls.borrow().reads.len(), 1);
    assert_eq!(reader.seek(SeekFrom::Current(9)).unwrap(), 23);
    assert!(!reader.is_live());
    assert_eq!(calls.borrow().reads.len(), 1);
    assert_eq!(read_some(&mut reader, 2), vec![23, 24]);
    let reads = calls.borrow().reads.clone();
    assert_eq!(reads.len(), 2);
    assert_eq!(reads[1], ("/a".to_string(), Some(23), Some(77)));
    assert_eq!(reader.seek(SeekFrom::Start(1)).unwrap(), 1);
    assert!(!reader.is_live());
    assert_eq!(read_some(&mut reader, 1), vec![1]);
    assert_eq!(calls.borrow().reads.len(), 3);
    assert_eq!(reader.position(), 2);
}

#[test]
fn seek_to_a_negative_position_is_refused() {
    let (mut memory, _) = Memory::new(capability(false, true));
    memory.objects.insert("/a".to_string(), hundred());
    let acc = CompleteLayer.layer(memory);
    let (_, mut reader) = acc.read("/a", OpRead::new()).unwrap();
    let err = reader.seek(SeekFrom::Current(-1)).unwrap_err();
    assert_eq!(err.kind(), ErrorKind::Unexpected);
    assert_eq!(err.message(), "invalid seek to a negative or overflowing position");
    assert_eq!(read_some(&mut reader, 1), vec![0]);
}

#[test]
fn range_reader_streams_chunks() {
    let (mut memory, calls) = Memory::new(capability(false, true));
    memory.objects.insert("/a".to_string(), hundred());
    let acc = CompleteLayer.layer(memory);
    let (_, mut reader) = acc.read("/a", OpRead::new()).unwrap();
    let mut out = Vec::new();
    while let Some(chunk) = reader.next() {
        out.extend_from_slice(&chunk.unwrap());
    }
    assert_eq!(out, hundred());
    assert!(reader.next().is_none());
    assert_eq!(calls.borrow().reads.len(), 1);
}

#[test]
fn blocking_read_rejects_non_seekable() {
    let (mut memory, _) = Memory::new(capability(false, true));
    memory.objects.insert("/x".to_string(), hundred());
    let acc = CompleteLayer.layer(memory);
    let err = match acc.blocking_read("/x", OpRead::new()) {
        Ok(_) => panic!("must be rejected"),
        Err(e) => e,
    };
    assert_eq!(err.kind(), ErrorKind::Unsupported);
    assert_eq!(err.message(), "non seekable blocking reader is not supported");
}

#[test]
fn blocking_read_completes_seekable() {
    let (mut memory, _) = Memory::new(capability(true, false));
    memory.objects.insert("/x".to_string(), hundred());
    let acc = CompleteLayer.layer(memory);
    let (rp, mut reader) = acc.blocking_read("/x", OpRead::new()).unwrap();
    assert_eq!(rp.metadata().content_length(), 100);
    assert!(matches!(reader, CompleteReader::NeedStreamable(_)));
    assert_eq!(reader.next().unwrap().unwrap().to_vec(), hundred());
}

#[test]
fn completed_accessor_reports_completed_capability() {
    let (memory, _) = Memory::new(capability(false, false));
    let acc = CompleteLayer.layer(memory);
    let info = acc.info();
    assert_eq!(info.scheme(), Scheme::Memory);
    let cap = info.capability();
    assert!(cap.read_can_seek && cap.read_can_next);
    assert!(cap.list_with_delimiter_slash && cap.list_without_delimiter);
    assert!(cap.read && !cap.copy);
    assert!(!acc.inner().info().capability().read_can_seek);
}

#[test]
fn stat_is_marked_complete() {
    let (mut memory, _) = Memory::new(capability(true, true));
    memory.objects.insert("/a".to_string(), hundred());
    let acc = CompleteLayer.layer(memory);
    let meta = acc.stat("/a", OpStat::new()).unwrap().into_metadata();
    assert!(meta.bit().contains_key(Metakey::Complete));
    assert!(meta.bit().contains_key(Metakey::ContentLength));
    assert_eq!(meta.content_length(), 100);
    let meta = acc.blocking_stat("/a", OpStat::new()).unwrap().into_metadata();
    assert!(meta.bit().contains_key(Metakey::Complete));
    assert_eq!(acc.stat("/none", OpStat::new()).unwrap_err().kind(), ErrorKind::NotFound);
}

#[test]
fn writer_size_mismatch() {
    let (memory, calls) = Memory::new(capability(true, true));
    let acc = CompleteLayer.layer(memory);
    let (_, mut w) = acc.write("/w", OpWrite::new().with_content_length(10)).unwrap();
    w.write(Bytes::from(vec![1u8; 5])).unwrap();
    let err = w.close().unwrap_err();
    assert_eq!(err.kind(), ErrorKind::ContentIncomplete);
    assert!(err.message().contains("expect: 10, actual: 5"));
    assert_eq!(err.message(), "writer got too less data, expect: 10, actual: 5");
    assert!(!calls.borrow().closed);
}

#[test]
fn writer_overrun() {
    let (memory, calls) = Memory::new(capability(true, true));
    let acc = CompleteLayer.layer(memory);
    let (_, mut w) = acc.write("/w", OpWrite::new().with_content_length(4)).unwrap();
    let err = w.write(Bytes::from(vec![1u8; 5])).unwrap_err();
    assert_eq!(err.kind(), ErrorKind::ContentTruncated);
    assert!(err.message().contains("expect: 4, actual: 5"));
    assert_eq!(err.message(), "writer got too much data, expect: 4, actual: 5");
    assert!(calls.borrow().written.is_empty());
}

#[test]
fn writer_closes_on_the_declared_size() {
    for chunks in [vec![6usize], vec![1, 2, 3], vec![0, 6, 0], vec![2, 2, 2]] {
        let (memory, calls) = Memory::new(capability(true, true));
        let acc = CompleteLayer.layer(memory);
        let (_, mut w) = acc.blocking_write("/w", OpWrite::new().with_content_length(6)).unwrap();
        for n in &chunks {
            w.write(Bytes::from(vec![7u8; *n])).unwrap();
        }
        assert_eq!(w.written(), 6);
        w.close().unwrap();
        assert!(w.is_finished());
        assert!(calls.borrow().closed);
        assert_eq!(calls.borrow().written, vec![7u8; 6]);
    }
}

#[test]
fn writer_overrun_at_the_first_prefix_over_the_size() {
    let (memory, calls) = Memory::new(capability(true, true));
    let acc = CompleteLayer.layer(memory);
    let (_, mut w) = acc.write("/w", OpWrite::new().with_content_length(6)).unwrap();
    w.write(Bytes::from(vec![7u8; 3])).unwrap();
    w.write(Bytes::from(vec![7u8; 3])).unwrap();
    let err = w.write(Bytes::from(vec![7u8; 1])).unwrap_err();
    assert_eq!(err.kind(), ErrorKind::ContentTruncated);
    assert_eq!(err.message(), "writer got too much data, expect: 6, actual: 7");
    assert_eq!(calls.borrow().written.len(), 6);
    assert_eq!(w.written(), 6);
    w.close().unwrap();
}

#[test]
fn writer_refuses_after_close_and_abort() {
    let (memory, calls) = Memory::new(capability(true, true));
    let acc = CompleteLayer.layer(memory);
    let (_, mut w) = acc.write("/w", OpWrite::new()).unwrap();
    assert_eq!(w.size(), None);
    w.write(Bytes::from(vec![1u8; 3])).unwrap();
    w.close().unwrap();
    for err in [
        w.write(Bytes::from(vec![1u8; 1])).unwrap_err(),
        w.close().unwrap_err(),
        w.abort().unwrap_err(),
    ] {
        assert_eq!(err.kind(), ErrorKind::Unexpected);
        assert_eq!(err.message(), "writer has been closed or aborted");
    }
    assert_eq!(calls.borrow().written.len(), 3);
    let (_, mut w) = acc.write("/w", OpWrite::new()).unwrap();
    w.abort().unwrap();
    assert!(calls.borrow().aborted);
    assert!(w.is_finished());
    assert_eq!(w.write(Bytes::new()).unwrap_err().kind(), ErrorKind::Unexpected);
}

#[test]
fn writer_counts_only_what_the_backend_took() {
    let (mut memory, _) = Memory::new(capability(true, true));
    memory.refused.insert("/w".to_string());
    let acc = CompleteLayer.layer(memory);
    let (_, mut w) = acc.write("/w", OpWrite::new().with_content_length(3)).unwrap();
    let err = w.write(Bytes::from(vec![1u8; 3])).unwrap_err();
    assert_eq!(err.kind(), ErrorKind::RateLimited);
    assert_eq!(w.written(), 0);
    assert!(!w.is_finished());
    assert_eq!(w.close().unwrap_err().kind(), ErrorKind::ContentIncomplete);
}

#[test]
fn appender_refuses_after_close() {
    let (memory, calls) = Memory::new(capability(true, true));
    let acc = CompleteLayer.layer(memory);
    let (_, mut a) = acc.append("/a", OpAppend::new()).unwrap();
    a.append(Bytes::from(vec![1u8, 2])).unwrap();
    a.append(Bytes::from(vec![3u8])).unwrap();
    assert!(!a.is_finished());
    a.close().unwrap();
    assert!(a.is_finished());
    assert_eq!(calls.borrow().written, vec![1, 2, 3]);
    for err in [a.append(Bytes::from(vec![4u8])).unwrap_err(), a.close().unwrap_err()] {
        assert_eq!(err.kind(), ErrorKind::Unexpected);
        assert_eq!(err.message(), "appender has been closed");
    }
    assert_eq!(calls.borrow().written, vec![1, 2, 3]);
}

#[test]
fn hierarchy_synthesis() {
    let (mut memory, calls) = Memory::new(Capability {
        list: true,
        list_without_delimiter: true,
        ..Capability::default()
    });
    memory.listings.insert(
        ("dir/".to_string(), "".to_string()),
        vec![vec![file("dir/a"), file("dir/b/c"), file("dir/b/d"), file("dir/e/f/g")]],
    );
    let acc = CompleteLayer.layer(memory);
    let (_, mut pager) = acc.list("dir/", OpList::new()).unwrap();
    assert!(matches!(pager, CompletePager::NeedHierarchy(_)));
    let batch = pager.next().unwrap().unwrap();
    assert_eq!(paths(&batch), vec![file("dir/a"), dir("dir/b/"), dir("dir/e/")]);
    assert!(pager.next().unwrap().is_none());
    assert_eq!(calls.borrow().lists, vec![("dir/".to_string(), "".to_string(), None)]);
}

#[test]
fn hierarchy_remembers_directories_across_batches() {
    let (mut memory, _) = Memory::new(Capability {
        list: true,
        list_without_delimiter: true,
        ..Capability::default()
    });
    memory.listings.insert(
        ("dir/".to_string(), "".to_string()),
        vec![
            vec![file("dir/b/c"), file("dir/a")],
            vec![file("dir/b/d")],
            vec![file("dir/z"), file("dir/b/e"), file("dir/y/x"), file("other/q")],
        ],
    );
    let acc = CompleteLayer.layer(memory);
    let (_, mut pager) = acc.blocking_list("dir/", OpList::new().with_limit(3)).unwrap();
    assert_eq!(paths(&pager.next().unwrap().unwrap()), vec![dir("dir/b/"), file("dir/a")]);
    assert_eq!(paths(&pager.next().unwrap().unwrap()), vec![]);
    assert_eq!(paths(&pager.next().unwrap().unwrap()), vec![file("dir/z"), dir("dir/y/")]);
    assert!(pager.next().unwrap().is_none());
}

#[test]
fn flat_expansion() {
    let (mut memory, calls) = Memory::new(Capability {
        list: true,
        list_with_delimiter_slash: true,
        ..Capability::default()
    });
    memory
        .listings
        .insert(("dir/".to_string(), "/".to_string()), vec![vec![file("dir/a"), dir("dir/b/")]]);
    memory.listings.insert(("dir/b/".to_string(), "/".to_string()), vec![vec![file("dir/b/c")]]);
    let acc = CompleteLayer.layer(memory);
    let (_, mut pager) = acc.list("dir/", OpList::new().with_delimiter("")).unwrap();
    assert!(matches!(pager, CompletePager::NeedFlat(_)));
    let mut all = Vec::new();
    while let Some(batch) = pager.next().unwrap() {
        all.extend(paths(&batch));
    }
    assert_eq!(all, vec![file("dir/a"), file("dir/b/c")]);
    assert_eq!(
        calls.borrow().lists,
        vec![
            ("dir/".to_string(), "/".to_string(), Some(1000)),
            ("dir/b/".to_string(), "/".to_string(), Some(1000)),
        ]
    );
    assert!(pager.next().unwrap().is_none());
}

#[test]
fn flat_expansion_walks_every_level_once() {
    let (mut memory, calls) = Memory::new(Capability {
        list: true,
        list_with_delimiter_slash: true,
        ..Capability::default()
    });
    memory.listings.insert(
        ("r/".to_string(), "/".to_string()),
        vec![vec![dir("r/a/"), dir("r/b/")], vec![file("r/f"), dir("r/c/")]],
    );
    memory.listings.insert(("r/a/".to_string(), "/".to_string()), vec![vec![file("r/a/1")]]);
    memory.listings.insert(
        ("r/c/".to_string(), "/".to_string()),
        vec![vec![file("r/c/1"), dir("r/c/d/")]],
    );
    memory.listings.insert(("r/c/d/".to_string(), "/".to_string()), vec![vec![file("r/c/d/1")]]);
    let acc = CompleteLayer.layer(memory);
    let (_, mut pager) =
        acc.list("r/", OpList::new().with_delimiter("").with_limit(2)).unwrap();
    let mut all = Vec::new();
    let mut batches = 0;
    while let Some(batch) = pager.next().unwrap() {
        assert!(batch.iter().all(|e| e.mode() != EntryMode::DIR));
        all.extend(paths(&batch));
        batches += 1;
    }
    assert_eq!(
        all,
        vec![file("r/f"), file("r/a/1"), file("r/c/1"), file("r/c/d/1")]
    );
    assert_eq!(batches, 5);
    let listed: Vec<String> = calls.borrow().lists.iter().map(|l| l.0.clone()).collect();
    assert_eq!(listed, vec!["r/", "r/a/", "r/b/", "r/c/", "r/c/d/"]);
    assert!(calls.borrow().lists.iter().all(|l| l.1 == "/" && l.2 == Some(2)));
    assert!(pager.next().unwrap().is_none());
}

#[test]
fn native_listings_are_forwarded() {
    let (mut memory, calls) = Memory::new(Capability {
        list: true,
        list_with_delimiter_slash: true,
        list_without_delimiter: true,
        ..Capability::default()
    });
    memory
        .listings
        .insert(("dir/".to_string(), "/".to_string()), vec![vec![file("dir/a"), dir("dir/b/")]]);
    memory
        .listings
        .insert(("dir/".to_string(), "".to_string()), vec![vec![file("dir/a"), file("dir/b/c")]]);
    let acc = CompleteLayer.layer(memory);
    let (_, mut pager) = acc.list("dir/", OpList::new()).unwrap();
    assert!(matches!(pager, CompletePager::AlreadyComplete(_)));
    assert_eq!(paths(&pager.next().unwrap().unwrap()), vec![file("dir/a"), dir("dir/b/")]);
    let (_, mut pager) = acc.list("dir/", OpList::new().with_delimiter("")).unwrap();
    assert!(matches!(pager, CompletePager::AlreadyComplete(_)));
    assert_eq!(paths(&pager.next().unwrap().unwrap()), vec![file("dir/a"), file("dir/b/c")]);
    assert_eq!(calls.borrow().lists.len(), 2);
}

#[test]
fn listing_without_support_is_refused() {
    let (memory, calls) = Memory::new(Capability::default());
    let acc = CompleteLayer.layer(memory);
    let err = match acc.list("dir/", OpList::new()) {
        Ok(_) => panic!("must be refused"),
        Err(e) => e,
    };
    assert_eq!(err.kind(), ErrorKind::Unsupported);
    assert_eq!(err.message(), "operation is not supported");
    assert_eq!(err.operation(), "list");
    assert_eq!(pairs(&err), vec![pair("service", "memory")]);
    assert!(calls.borrow().lists.is_empty());
}

#[test]
fn other_delimiters_are_refused() {
    let (memory, calls) = Memory::new(capability(true, true));
    let acc = CompleteLayer.layer(memory);
    for blocking in [false, true] {
        let args = OpList::new().with_delimiter("-");
        let err = if blocking {
            acc.blocking_list("dir/", args).err().unwrap()
        } else {
            acc.list("dir/", args).err().unwrap()
        };
        assert_eq!(err.kind(), ErrorKind::Unsupported);
        assert_eq!(err.message(), "list with other delimiter is not supported");
        assert_eq!(err.operation(), "");
        assert_eq!(pairs(&err), vec![pair("service", "memory"), pair("delimiter", "-")]);
    }
    assert!(calls.borrow().lists.is_empty());
}

fn operator(memory: Memory) -> Operator<Memory> {
    Operator::from_inner(Arc::new(memory))
}

#[test]
fn operator_limit_comes_from_the_backend() {
    let (memory, _) = Memory::new(capability(true, true));
    let op = operator(memory);
    assert_eq!(op.limit(), 100);
    assert_eq!(op.with_limit(7).limit(), 7);
    assert_eq!(op.limit(), 100);
    assert_eq!(op.blocking().limit(), 100);
    assert_eq!(op.with_limit(3).blocking().limit(), 3);
    assert_eq!(op.blocking().with_limit(9).limit(), 9);
    let (memory, _) =
        Memory::new(Capability { batch_max_operations: Some(42), ..Capability::default() });
    let op = operator(memory);
    assert_eq!(op.limit(), 42);
    let info = op.info();
    assert_eq!(info.scheme(), Scheme::Memory);
    assert_eq!(info.name(), "memory");
    assert_eq!(info.root(), "/");
    assert!(!info.can_batch());
    assert!(!info.can_blocking());
    assert_eq!(info.capability().batch_max_operations, Some(42));
    assert_eq!(op.inner().info().name(), "memory");
    assert_eq!(op.into_inner().info().root(), "/");
}

#[test]
fn operator_normalizes_paths() {
    let (mut memory, calls) = Memory::new(capability(true, true));
    memory.objects.insert("a/b".to_string(), hundred());
    let op = operator(memory);
    assert_eq!(op.stat("  //a///b ").unwrap().content_length(), 100);
    assert!(op.is_exist("a/b").unwrap());
    assert!(!op.is_exist("a/c").unwrap());
    assert_eq!(calls.borrow().stats, vec!["a/b", "a/b", "a/c"]);
    op.delete("").unwrap();
    assert_eq!(calls.borrow().deletes, vec!["/"]);
}

#[test]
fn operator_is_exist_hands_other_errors_on() {
    let (mut memory, _) = Memory::new(capability(true, true));
    memory.refused.insert("a".to_string());
    let op = operator(memory);
    assert_eq!(op.is_exist("a").unwrap_err().kind(), ErrorKind::PermissionDenied);
}

#[test]
fn operator_create_dir_wants_a_trailing_slash() {
    let (memory, calls) = Memory::new(capability(true, true));
    let op = operator(memory);
    let err = op.create_dir("a/b").unwrap_err();
    assert_eq!(err.kind(), ErrorKind::NotADirectory);
    assert_eq!(err.message(), "the path trying to create should end with `/`");
    assert_eq!(err.operation(), "create_dir");
    assert_eq!(pairs(&err), vec![pair("service", "memory"), pair("path", "a/b")]);
    assert!(calls.borrow().dirs.is_empty());
    op.create_dir("/a/b//").unwrap();
    assert_eq!(calls.borrow().dirs, vec!["a/b/"]);
}

#[test]
fn operator_reads_into_memory() {
    let (mut memory, calls) = Memory::new(capability(true, true));
    memory.objects.insert("a".to_string(), big(150_000));
    let op = operator(memory);
    assert_eq!(op.read("a").unwrap(), big(150_000));
    assert_eq!(
        op.range_read("a", BytesRange::new(Some(5), Some(10))).unwrap(),
        big(150_000)[5..15].to_vec()
    );
    assert_eq!(op.read_with("/a", OpRead::new().with_if_match("x")).unwrap().len(), 150_000);
    assert_eq!(
        op.range_read_with("a", BytesRange::new(None, Some(3)), OpRead::new()).unwrap(),
        big(150_000)[149_997..].to_vec()
    );
    assert_eq!(
        calls.borrow().reads,
        vec![
            ("a".to_string(), None, None),
            ("a".to_string(), Some(5), Some(10)),
            ("a".to_string(), None, None),
            ("a".to_string(), None, Some(3)),
        ]
    );
    let err = op.read("a/").unwrap_err();
    assert_eq!(err.kind(), ErrorKind::IsADirectory);
    assert_eq!(err.message(), "read path is a directory");
    assert_eq!(err.operation(), "range_read");
    assert_eq!(pairs(&err), vec![pair("service", "memory"), pair("path", "a/")]);
    assert_eq!(op.read("none").unwrap_err().kind(), ErrorKind::NotFound);
}

#[test]
fn operator_opens_streams_on_files_only() {
    let (mut memory, _) = Memory::new(capability(true, true));
    memory.objects.insert("a".to_string(), hundred());
    let op = operator(memory);
    let mut r = op.reader("a").unwrap();
    assert_eq!(read_all(&mut r), hundred());
    let mut r = op.range_reader("a", BytesRange::new(Some(98), None)).unwrap();
    assert_eq!(read_all(&mut r), vec![98, 99]);
    let err = op.reader("a/").err().unwrap();
    assert_eq!(err.kind(), ErrorKind::IsADirectory);
    assert_eq!(err.operation(), "Operator::range_reader");
    let err = op.writer("a/").err().unwrap();
    assert_eq!(err.kind(), ErrorKind::IsADirectory);
    assert_eq!(err.message(), "write path is a directory");
    assert_eq!(err.operation(), "Operator::writer");
    let err = op.appender("a/").err().unwrap();
    assert_eq!(err.message(), "append path is a directory");
    assert_eq!(err.operation(), "Operator::appender");
    assert!(op.writer_with("a", OpWrite::new()).is_ok());
    assert!(op.appender_with("a", OpAppend::new()).is_ok());
}

#[test]
fn operator_writes_from_memory() {
    let (memory, calls) = Memory::new(capability(true, true));
    let op = operator(memory);
    op.write("a", Bytes::from(vec![1u8, 2, 3])).unwrap();
    assert_eq!(calls.borrow().writes, vec![("a".to_string(), Some(3))]);
    assert_eq!(calls.borrow().written, vec![1, 2, 3]);
    assert!(calls.borrow().closed);
    let err = op.write("a/", Bytes::new()).unwrap_err();
    assert_eq!(err.kind(), ErrorKind::IsADirectory);
    assert_eq!(err.operation(), "Operator::write_with");
    op.append("b", Bytes::from(vec![4u8])).unwrap();
    assert_eq!(calls.borrow().written, vec![1, 2, 3, 4]);
    let err = op.append_with("b/", OpAppend::new(), Bytes::new()).unwrap_err();
    assert_eq!(err.operation(), "Operator::append_with");
}

#[test]
fn operator_write_hands_the_writers_error_on() {
    let (mut memory, calls) = Memory::new(capability(true, true));
    memory.refused.insert("a".to_string());
    let op = operator(memory);
    let err = op.write_with("a", OpWrite::new(), Bytes::from(vec![1u8])).unwrap_err();
    assert_eq!(err.kind(), ErrorKind::RateLimited);
    assert!(!calls.borrow().closed);
}

#[test]
fn operator_copy_and_rename_check_both_paths() {
    let (memory, calls) = Memory::new(capability(true, true));
    let op = operator(memory);
    op.copy("a", "/b").unwrap();
    op.rename("a", "c").unwrap();
    assert_eq!(calls.borrow().copies, vec![("a".to_string(), "b".to_string())]);
    assert_eq!(calls.borrow().renames, vec![("a".to_string(), "c".to_string())]);
    let err = op.copy("a/", "b").unwrap_err();
    assert_eq!(err.kind(), ErrorKind::IsADirectory);
    assert_eq!(err.message(), "from path is a directory");
    assert_eq!(err.operation(), "Operator::copy");
    assert_eq!(pairs(&err), vec![pair("service", "memory"), pair("from", "a/")]);
    let err = op.copy("a", "b/").unwrap_err();
    assert_eq!(err.message(), "to path is a directory");
    assert_eq!(pairs(&err), vec![pair("service", "memory"), pair("to", "b/")]);
    let err = op.rename("a", "//a").unwrap_err();
    assert_eq!(err.kind(), ErrorKind::IsSameFile);
    assert_eq!(err.message(), "from and to paths are same");
    assert_eq!(err.operation(), "Operator::move_");
    assert_eq!(
        pairs(&err),
        vec![pair("service", "memory"), pair("from", "a"), pair("to", "a")]
    );
    assert_eq!(calls.borrow().copies.len(), 1);
    assert_eq!(calls.borrow().renames.len(), 1);
}

fn names(all: &[&str]) -> Vec<String> {
    all.iter().map(|s| s.to_string()).collect()
}

#[test]
fn operator_removes_in_batches_of_the_limit() {
    let (memory, calls) = Memory::new(Capability { batch: true, ..Capability::default() });
    let op = operator(memory).with_limit(2);
    op.remove(names(&["a", "b", "c", "d", "e"])).unwrap();
    assert_eq!(
        calls.borrow().batches,
        vec![names(&["a", "b"]), names(&["c", "d"]), names(&["e"])]
    );
    assert!(calls.borrow().deletes.is_empty());
    op.remove(vec![]).unwrap();
    assert_eq!(calls.borrow().batches.len(), 3);
    op.with_limit(10).remove_via(names(&["x", "y"])).unwrap();
    assert_eq!(calls.borrow().batches[3], names(&["x", "y"]));
}

#[test]
fn operator_batch_surfaces_the_first_item_error() {
    let (mut memory, calls) = Memory::new(Capability { batch: true, ..Capability::default() });
    memory.refused.insert("c".to_string());
    let op = operator(memory).with_limit(3);
    let err = op.remove(names(&["a", "b", "c", "d", "e"])).unwrap_err();
    assert_eq!(err.kind(), ErrorKind::PermissionDenied);
    assert_eq!(calls.borrow().batches, vec![names(&["a", "b", "c"])]);
}

#[test]
fn operator_removes_one_by_one_without_batch() {
    let (mut memory, calls) = Memory::new(capability(true, true));
    memory.refused.insert("c".to_string());
    let op = operator(memory);
    op.remove(names(&["a", "b"])).unwrap();
    assert_eq!(calls.borrow().deletes, names(&["a", "b"]));
    let err = op.remove(names(&["x", "c", "y"])).unwrap_err();
    assert_eq!(err.kind(), ErrorKind::PermissionDenied);
    assert_eq!(calls.borrow().deletes, names(&["a", "b", "x", "c"]));
    assert!(calls.borrow().batches.is_empty());
}

#[test]
fn operator_remove_all_of_nothing_is_success() {
    let (memory, calls) = Memory::new(capability(true, true));
    let op = operator(memory);
    assert!(matches!(op.remove_all("none").unwrap(), RemoveAll::Done));
    assert!(calls.borrow().deletes.is_empty());
}

#[test]
fn operator_remove_all_deletes_a_file() {
    let (mut memory, calls) = Memory::new(capability(true, true));
    memory.objects.insert("a".to_string(), hundred());
    memory.refused.insert("b".to_string());
    let op = operator(memory);
    assert!(matches!(op.remove_all("/a").unwrap(), RemoveAll::Done));
    assert_eq!(calls.borrow().deletes, names(&["a"]));
    assert_eq!(op.remove_all("b").err().unwrap().kind(), ErrorKind::PermissionDenied);
}

#[test]
fn operator_remove_all_scans_a_directory() {
    let (mut memory, calls) = Memory::new(Capability {
        list: true,
        list_without_delimiter: true,
        batch: true,
        ..Capability::default()
    });
    memory.directories.insert("d/".to_string());
    memory.listings.insert(
        ("d/".to_string(), "".to_string()),
        vec![vec![file("d/a"), file("d/b"), file("d/c")], vec![file("d/e/f")]],
    );
    let op = operator(memory).with_limit(2);
    let mut pager = match op.remove_all("d/").unwrap() {
        RemoveAll::Scan(p) => p,
        RemoveAll::Done => panic!("a directory is scanned"),
    };
    while let Some(page) = pager.next().unwrap() {
        op.remove_page(page).unwrap();
    }
    op.delete("d/").unwrap();
    assert_eq!(
        calls.borrow().batches,
        vec![names(&["d/a", "d/b"]), names(&["d/c"]), names(&["d/e/f"])]
    );
    assert_eq!(calls.borrow().deletes, names(&["d/"]));
    assert_eq!(calls.borrow().lists, vec![("d/".to_string(), "".to_string(), None)]);
}

#[test]
fn operator_lists_directories_only() {
    let (mut memory, calls) = Memory::new(capability(true, true));
    memory.listings.insert(("d/".to_string(), "/".to_string()), vec![vec![file("d/a")]]);
    let op = operator(memory);
    let mut pager = op.list("d/").unwrap();
    assert_eq!(paths(&pager.next().unwrap().unwrap()), vec![file("d/a")]);
    let _ = op.list_with("d/", OpList::new().with_limit(5).with_start_after("d/0")).unwrap();
    let _ = op.scan("/d//").unwrap();
    assert_eq!(
        calls.borrow().lists,
        vec![
            ("d/".to_string(), "/".to_string(), None),
            ("d/".to_string(), "/".to_string(), Some(5)),
            ("d/".to_string(), "".to_string(), None),
        ]
    );
    let err = op.list("d").err().unwrap();
    assert_eq!(err.kind(), ErrorKind::NotADirectory);
    assert_eq!(err.message(), "the path trying to list should end with `/`");
    assert_eq!(err.operation(), "Operator::list");
    assert_eq!(pairs(&err), vec![pair("service", "memory"), pair("path", "d")]);
    let err = op.scan("d").err().unwrap();
    assert_eq!(err.message(), "the path trying to scan should end with `/`");
    assert_eq!(err.operation(), "list");
    op.check().unwrap();
    assert_eq!(calls.borrow().lists.last().unwrap().0, "/");
}

#[test]
fn operator_metadata_uses_what_the_listing_vouches_for() {
    let (mut memory, calls) = Memory::new(capability(true, true));
    memory.objects.insert("a".to_string(), hundred());
    let op = operator(memory);
    let listed = Entry::new("a", Metadata::new(EntryMode::FILE).with_etag("e1"));
    let meta = op.metadata(&listed, MetakeySet::only(Metakey::Etag)).unwrap();
    assert_eq!(meta.etag(), Some("e1"));
    let meta = op.metadata(&listed, MetakeySet::empty()).unwrap();
    assert_eq!(meta.mode(), EntryMode::FILE);
    assert!(calls.borrow().stats.is_empty());
    let wanted = MetakeySet::only(Metakey::Etag).with(Metakey::ContentLength);
    let meta = op.metadata(&listed, wanted).unwrap();
    assert_eq!(meta.content_length(), 100);
    assert_eq!(calls.borrow().stats, names(&["a"]));
    let complete = Entry::new("d/", Metadata::new(EntryMode::DIR));
    let meta = op.metadata(&complete, wanted).unwrap();
    assert!(meta.is_dir());
    assert_eq!(calls.borrow().stats.len(), 1);
}

#[test]
fn operator_presign_hands_the_request_on() {
    let (memory, calls) = Memory::new(capability(true, true));
    let op = operator(memory);
    let hour = Duration::from_secs(3600);
    let req = op.presign_stat("//a", hour).unwrap();
    assert_eq!(req.method(), "HEAD");
    assert_eq!(req.uri(), "https://example.test/a");
    assert_eq!(req.header(), &vec![pair("host", "example.test")]);
    assert_eq!(op.presign_read("a", hour).unwrap().method(), "GET");
    assert_eq!(op.presign_read_with("a", OpRead::new(), hour).unwrap().method(), "GET");
    assert_eq!(op.presign_write("a", hour).unwrap().method(), "PUT");
    let args = OpWrite::new().with_content_type("text/csv");
    assert_eq!(op.presign_write_with("a", args, Duration::from_secs(5)).unwrap().method(), "PUT");
    assert_eq!(calls.borrow().presigns.len(), 5);
    assert_eq!(calls.borrow().presigns[4], ("a".to_string(), 5));
}

#[derive(Clone, Default)]
struct Recorder {
    events: Rc<RefCell<Vec<String>>>,
}

impl MetricsRegistry for Recorder {
    type Timer = (String, String);

    fn increment_requests(&self, scheme: &str, operation: &str) {
        self.events.borrow_mut().push(format!("count {scheme} {operation}"));
    }

    fn start_timer(&self, scheme: &str, operation: &str) -> (String, String) {
        self.events.borrow_mut().push(format!("start {scheme} {operation}"));
        (scheme.to_string(), operation.to_string())
    }

    fn observe_duration(&self, timer: (String, String)) {
        self.events.borrow_mut().push(format!("stop {} {}", timer.0, timer.1));
    }

    fn observe_bytes(&self, scheme: &str, operation: &str, bytes: u64) {
        self.events.borrow_mut().push(format!("bytes {scheme} {operation} {bytes}"));
    }

    fn report_error(&self, record: &str) {
        self.events.borrow_mut().push(record.to_string());
    }
}

#[test]
fn metrics_count_time_and_observe_a_read() {
    let recorder = Recorder::default();
    let (mut memory, calls) = Memory::new(capability(true, true));
    memory.objects.insert("/a".to_string(), hundred());
    let acc = PrometheusLayer::with_registry(recorder.clone()).layer(memory);
    let (rp, mut reader) = acc.read("/a", OpRead::new()).unwrap();
    assert_eq!(rp.metadata().content_length(), 100);
    assert_eq!(
        recorder.events.borrow().clone(),
        vec!["count memory read", "start memory read", "bytes memory read 100", "stop memory read"]
    );
    recorder.events.borrow_mut().clear();
    assert_eq!(read_some(&mut reader, 40).len(), 40);
    assert_eq!(reader.seek(SeekFrom::Start(95)).unwrap(), 95);
    assert_eq!(reader.next().unwrap().unwrap().len(), 5);
    assert!(reader.next().is_none());
    assert_eq!(
        recorder.events.borrow().clone(),
        vec!["bytes memory read 40", "bytes memory read 5"]
    );
    assert_eq!(calls.borrow().reads.len(), 1);
    assert_eq!(acc.inner().info().scheme(), Scheme::Memory);
}

#[test]
fn metrics_report_errors_and_hand_them_on() {
    let recorder = Recorder::default();
    let (mut memory, _) = Memory::new(capability(true, true));
    memory.refused.insert("/w".to_string());
    let acc = PrometheusLayer::with_registry(recorder.clone()).layer(memory);
    let err = acc.read("/none", OpRead::new()).err().unwrap();
    assert_eq!(err.kind(), ErrorKind::NotFound);
    assert_eq!(err.message(), "no such object");
    assert_eq!(
        recorder.events.borrow().clone(),
        vec![
            "count memory read",
            "start memory read",
            "stop memory read",
            "Prometheus statistics metrics error, operation read error NotFound",
        ]
    );
    recorder.events.borrow_mut().clear();
    let err = acc.blocking_stat("/w", OpStat::new()).unwrap_err();
    assert_eq!(err.kind(), ErrorKind::PermissionDenied);
    assert_eq!(
        recorder.events.borrow().clone(),
        vec![
            "count memory blocking_stat",
            "start memory blocking_stat",
            "stop memory blocking_stat",
            "Prometheus statistics metrics error, operation blocking_stat error PermissionDenied",
        ]
    );
    recorder.events.borrow_mut().clear();
    let (_, mut w) = acc.write("/w", OpWrite::new()).unwrap();
    assert_eq!(w.write(Bytes::from(vec![1u8; 3])).unwrap_err().kind(), ErrorKind::RateLimited);
    w.close().unwrap();
    assert_eq!(
        recorder.events.borrow().clone(),
        vec![
            "count memory write",
            "start memory write",
            "stop memory write",
            "Prometheus statistics metrics error, operation write error RateLimited",
        ]
    );
}

#[test]
fn metrics_observe_written_bytes() {
    let recorder = Recorder::default();
    let (memory, calls) = Memory::new(capability(true, true));
    let acc = PrometheusLayer::with_registry(recorder.clone()).layer(memory);
    let (_, mut w) = acc.blocking_write("/a", OpWrite::new()).unwrap();
    w.write(Bytes::from(vec![1u8; 3])).unwrap();
    w.write(Bytes::from(vec![1u8; 4])).unwrap();
    w.close().unwrap();
    assert_eq!(
        recorder.events.borrow().clone(),
        vec![
            "count memory blocking_write",
            "start memory blocking_write",
            "stop memory blocking_write",
            "bytes memory blocking_write 3",
            "bytes memory blocking_write 4",
        ]
    );
    assert_eq!(calls.borrow().written.len(), 7);
}

#[test]
fn metrics_label_every_operation_by_itself() {
    let recorder = Recorder::default();
    let (mut memory, _) = Memory::new(Capability { list: true, ..Capability::default() });
    memory.objects.insert("a".to_string(), hundred());
    let acc = PrometheusLayer::with_registry(recorder.clone()).layer(memory);
    acc.create_dir("d/", OpCreateDir::new()).unwrap();
    acc.stat("a", OpStat::new()).unwrap();
    acc.delete("a", OpDelete::new()).unwrap();
    acc.list("d/", OpList::new()).unwrap();
    acc.copy("a", "b", OpCopy::new()).unwrap();
    acc.rename("a", "b", OpRename::new()).unwrap();
    acc.batch(OpBatch::new(vec![])).unwrap();
    acc.presign("a", OpPresign::new(PresignOperation::Stat(OpStat::new()), Duration::ZERO))
        .unwrap();
    acc.blocking_create_dir("d/", OpCreateDir::new()).unwrap();
    acc.blocking_delete("a", OpDelete::new()).unwrap();
    acc.blocking_list("d/", OpList::new()).unwrap();
    acc.blocking_read("a", OpRead::new()).unwrap();
    acc.append("a", OpAppend::new()).unwrap();
    let counted: Vec<String> = recorder
        .events
        .borrow()
        .iter()
        .filter(|e| e.starts_with("count "))
        .cloned()
        .collect();
    assert_eq!(
        counted,
        vec![
            "count memory create_dir",
            "count memory stat",
            "count memory delete",
            "count memory list",
            "count memory copy",
            "count memory rename",
            "count memory batch",
            "count memory presign",
            "count memory blocking_create_dir",
            "count memory blocking_delete",
            "count memory blocking_list",
            "count memory blocking_read",
        ]
    );
    let started = recorder.events.borrow().iter().filter(|e| e.starts_with("start ")).count();
    let stopped = recorder.events.borrow().iter().filter(|e| e.starts_with("stop ")).count();
    assert_eq!((started, stopped), (12, 12));
    assert_eq!(Operation::BlockingWrite.into_static(), "blocking_write");
    assert_eq!(Operation::Info.into_static(), "metadata");
}

#[test]
fn layers_stack() {
    let recorder = Recorder::default();
    let (mut memory, calls) = Memory::new(capability(false, false));
    memory.objects.insert("/a".to_string(), hundred());
    let acc = PrometheusLayer::with_registry(recorder.clone()).layer(CompleteLayer.layer(memory));
    let args = OpRead::new().with_range(BytesRange::new(None, Some(30)));
    let (_, mut reader) = acc.read("/a", args).unwrap();
    let mut out = Vec::new();
    while let Some(chunk) = reader.next() {
        out.extend_from_slice(&chunk.unwrap());
    }
    assert_eq!(out, (70u8..100).collect::<Vec<u8>>());
    assert_eq!(calls.borrow().reads.len(), 1);
    assert_eq!(calls.borrow().stats.len(), 1);
    assert!(recorder.events.borrow().contains(&"bytes memory read 30".to_string()));
}

#[test]
fn operator_read_fails_when_the_reader_ends_early() {
    let (mut memory, _) = Memory::new(capability(true, true));
    memory.objects.insert("a".to_string(), hundred());
    memory.announced.insert("a".to_string(), 120);
    let op = operator(memory);
    let err = op.read("a").unwrap_err();
    assert_eq!(err.kind(), ErrorKind::Unexpected);
    assert_eq!(err.message(), "read from storage");
    assert_eq!(err.operation(), "range_read");
    assert_eq!(pairs(&err), vec![pair("service", "memory"), pair("path", "a")]);
}

#[test]
fn operator_read_takes_no_more_than_announced() {
    let (mut memory, _) = Memory::new(capability(true, true));
    memory.objects.insert("a".to_string(), hundred());
    memory.announced.insert("a".to_string(), 40);
    let op = operator(memory);
    assert_eq!(op.read("a").unwrap(), (0u8..40).collect::<Vec<u8>>());
}

#[test]
fn operator_check_takes_nothing_found_for_an_answer() {
    let (mut memory, _) = Memory::new(capability(true, true));
    memory.broken_pages = Some(ErrorKind::NotFound);
    operator(memory).check().unwrap();
    let (mut memory, _) = Memory::new(capability(true, true));
    memory.broken_pages = Some(ErrorKind::PermissionDenied);
    let err = operator(memory).check().unwrap_err();
    assert_eq!(err.kind(), ErrorKind::PermissionDenied);
    assert_eq!(err.message(), "the listing broke");
}

#[test]
fn flat_listing_keeps_a_directory_that_could_not_be_listed() {
    let (mut memory, calls) = Memory::new(Capability {
        list: true,
        list_with_delimiter_slash: true,
        ..Capability::default()
    });
    memory.listings.insert(("r/".to_string(), "/".to_string()), vec![vec![dir("r/a/")]]);
    memory.listings.insert(("r/a/".to_string(), "/".to_string()), vec![vec![file("r/a/1")]]);
    memory.busy_once.borrow_mut().insert("r/a/".to_string());
    let acc = CompleteLayer.layer(memory);
    let (_, mut pager) = acc.list("r/", OpList::new().with_delimiter("")).unwrap();
    assert_eq!(paths(&pager.next().unwrap().unwrap()), vec![]);
    assert_eq!(pager.next().unwrap_err().kind(), ErrorKind::RateLimited);
    assert_eq!(paths(&pager.next().unwrap().unwrap()), vec![file("r/a/1")]);
    assert!(pager.next().unwrap().is_none());
    let listed: Vec<String> = calls.borrow().lists.iter().map(|l| l.0.clone()).collect();
    assert_eq!(listed, vec!["r/", "r/a/", "r/a/"]);
}

#[test]
fn listing_errors_are_handed_on() {
    let (mut memory, _) = Memory::new(Capability {
        list: true,
        list_with_delimiter_slash: true,
        list_without_delimiter: false,
        ..Capability::default()
    });
    memory.broken_pages = Some(ErrorKind::PermissionDenied);
    let acc = CompleteLayer.layer(memory);
    let (_, mut pager) = acc.list("r/", OpList::new().with_delimiter("")).unwrap();
    let err = pager.next().unwrap_err();
    assert_eq!(err.kind(), ErrorKind::PermissionDenied);
    assert_eq!(err.message(), "the listing broke");
    assert_eq!(pager.next().unwrap_err().kind(), ErrorKind::PermissionDenied);
}

#[test]
fn operator_reads_an_empty_object() {
    let (mut memory, _) = Memory::new(capability(true, true));
    memory.objects.insert("a".to_string(), vec![]);
    let op = operator(memory);
    assert_eq!(op.read("a").unwrap(), Vec::<u8>::new());
}

#[test]
fn reader_that_stalls_while_reading_ahead_is_given_up() {
    let (mut memory, calls) = Memory::new(capability(false, true));
    memory.objects.insert("/a".to_string(), hundred());
    let acc = CompleteLayer.layer(memory);
    let (_, reader) = acc.read("/a", OpRead::new()).unwrap();
    let mut reader = match reader {
        CompleteReader::NeedSeekable(r) => r,
        _ => panic!("a range reader is expected"),
    };
    assert_eq!(read_some(&mut reader, 10).len(), 10);
    assert!(reader.is_live());
    assert_eq!(reader.seek(SeekFrom::Start(150)).unwrap(), 150);
    assert!(!reader.is_live());
    assert_eq!(reader.position(), 150);
    assert_eq!(read_some(&mut reader, 4), Vec::<u8>::new());
    assert_eq!(calls.borrow().reads.len(), 1);
    assert_eq!(reader.seek(SeekFrom::Start(98)).unwrap(), 98);
    assert_eq!(read_some(&mut reader, 4), vec![98, 99]);
    assert_eq!(calls.borrow().reads.len(), 2);
}

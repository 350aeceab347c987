use vstd::prelude::*;
use crate::error::ExcelifyError;

verus! {

// The zip crate does the container-level work of `save`: the library builds
// each part's name and text itself (verified) and hands them over one by
// one. The writer is held opaque — its type's io trait bounds cannot be
// declared to the verifier — and `zip_entries` names the parts it holds so
// far, in order, as (name, text) pairs.

/// An in-memory zip archive in the making: wraps `zip::ZipWriter` over an
/// in-memory cursor.
#[verifier::external_body]
pub struct ZipBuilder {
    inner: zip::write::ZipWriter<std::io::Cursor<Vec<u8>>>,
}

/// The entries the archive builder holds so far: for each, its name and the
/// text written to it, in the order the entries were started.
pub uninterp spec fn zip_entries(w: ZipBuilder) -> Seq<(Seq<char>, Seq<char>)>;

/// The entries a zip reader finds in the given archive bytes, in order:
/// for each, its name and its decompressed text. A function of the bytes
/// alone; `ZipBuilder::finish` states that the bytes it returns decode to
/// exactly the entries that were written.
pub uninterp spec fn zip_archive_entries(bytes: Seq<u8>) -> Seq<(Seq<char>, Seq<char>)>;

impl ZipBuilder {
    /// Relies on zip::ZipWriter::new: a writer over a fresh in-memory
    /// cursor holds no entries.
    #[verifier::external_body]
    pub(crate) fn new() -> (w: ZipBuilder)
        ensures
            zip_entries(w) == Seq::<(Seq<char>, Seq<char>)>::empty(),
    {
        ZipBuilder { inner: zip::write::ZipWriter::new(std::io::Cursor::new(Vec::new())) }
    }

    /// Relies on zip::ZipWriter::start_file: on success a new entry with
    /// the given name, deflate-compressed at a fixed moderate level, is
    /// appended, with nothing written to it yet.
    #[verifier::external_body]
    pub(crate) fn start_file(&mut self, name: &str) -> (r: Result<(), ExcelifyError>)
        ensures
            r is Ok ==> zip_entries(*final(self)) == zip_entries(*old(self)).push(
                (name@, Seq::<char>::empty()),
            ),
            r matches Err(e) ==> e is Zip,
    {
        let options = zip::write::SimpleFileOptions::default().compression_method(
            zip::CompressionMethod::Deflated,
        ).compression_level(Some(6));
        match self.inner.start_file(name, options) {
            Ok(()) => Ok(()),
            Err(e) => Err(ExcelifyError::Zip(e.to_string())),
        }
    }

    /// Relies on std::io::Write::write_all on zip::ZipWriter: on success
    /// the given text is appended to the entry started last.
    #[verifier::external_body]
    pub(crate) fn write_data(&mut self, data: &str) -> (r: Result<(), ExcelifyError>)
        requires
            zip_entries(*old(self)).len() > 0,
        ensures
            r is Ok ==> zip_entries(*final(self)) == zip_entries(*old(self)).update(
                zip_entries(*old(self)).len() - 1,
                (zip_entries(*old(self)).last().0, zip_entries(*old(self)).last().1 + data@),
            ),
            r matches Err(e) ==> e is Io,
    {
        match std::io::Write::write_all(&mut self.inner, data.as_bytes()) {
            Ok(()) => Ok(()),
            Err(e) => Err(ExcelifyError::Io(e.to_string())),
        }
    }

    /// Relies on zip::ZipWriter::finish: on success the returned bytes are
    /// a complete zip archive holding exactly the entries written so far.
    #[verifier::external_body]
    pub(crate) fn finish(self) -> (r: Result<Vec<u8>, ExcelifyError>)
        ensures
            r matches Ok(b) ==> zip_archive_entries(b@) == zip_entries(self),
            r matches Err(e) ==> e is Zip,
    {
        match self.inner.finish() {
            Ok(cursor) => Ok(cursor.into_inner()),
            Err(e) => Err(ExcelifyError::Zip(e.to_string())),
        }
    }
}

} // verus!

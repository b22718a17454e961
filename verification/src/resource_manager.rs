//! Fetching what a map refers to: images, texts and object templates.
//!
//! How bytes are read and how an image is made of a path is left to the
//! caller, through [`Provider`] and [`ImageLoader`]. The manager joins paths
//! and remembers what it has loaded: an image or a template is asked for at
//! most once.

use crate::errors::{Error, Fault};
use crate::object::{
    fill_fault,
    is_copy,
    is_template_of,
    templates_under,
    Object,
    TemplateMap,
    Templates,
};
use crate::text::{resolve, resolved};
use crate::xml::{first_tagged, xml_document, Element};
use vstd::hash_map::StringHashMap;
use vstd::prelude::*;
use vstd::string::StringExecFns;
use vstd::utf8::{decode_utf8, valid_utf8};

verus! {

/// Turns a path into an image. `I` is the type of the images.
pub trait ImageLoader<I> {
    fn load(&mut self, path: &str) -> Result<I, Error>;
}

/// Trait to provide external data.
pub trait Provider {
    /// Open a file that is located at base_path/path and return its contents.
    fn read(&mut self, base_path: &str, path: &str) -> Result<Vec<u8>, Error>;
}

/// Trivial image loader that only stores paths for manual loading later.
/// It does not actually load any image data or touch any files.
pub struct LazyLoader {}

impl ImageLoader<String> for LazyLoader {
    fn load(&mut self, path: &str) -> (r: Result<String, Error>)
        ensures
            match r {
                Ok(image) => image@ == path@,
                Err(_) => false,
            },
    {
        Ok(String::from_str(path))
    }
}

/// The place of an image in the table of the manager that loaded it.
#[derive(Debug, Clone, Copy, PartialEq, Eq, Structural)]
pub struct ImageHandle(pub usize);

/// `String::from_utf8`: the text that `data` encodes, or `None` where `data`
/// is no valid UTF-8.
#[verifier::external_body]
fn utf8_text(data: Vec<u8>) -> (r: Option<String>)
    ensures
        match r {
            Some(text) => valid_utf8(data@) && text@ == decode_utf8(data@),
            None => !valid_utf8(data@),
        },
{
    String::from_utf8(data).ok()
}

/// The text that bytes encode in UTF-8; bytes that encode none are a parse
/// error.
pub fn text_from_bytes(data: Vec<u8>) -> (r: Result<String, Error>)
    ensures
        match r {
            Ok(text) => valid_utf8(data@) && text@ == decode_utf8(data@),
            Err(e) => !valid_utf8(data@) && e@ == Fault::Parse,
        },
{
    match utf8_text(data) {
        Some(text) => Ok(text),
        None => Err(Error::ParseError(String::from_str("invalid utf-8 sequence"))),
    }
}

/// The text that a provider has read, or the error with which it failed.
/// The error of the provider is handed on as it is; bytes that encode no
/// text are a parse error.
pub fn text_from_read(read: Result<Vec<u8>, Error>) -> (r: Result<String, Error>)
    ensures
        match read {
            Ok(data) => match r {
                Ok(text) => valid_utf8(data@) && text@ == decode_utf8(data@),
                Err(e) => !valid_utf8(data@) && e@ == Fault::Parse,
            },
            Err(failure) => r == Err::<String, Error>(failure),
        },
{
    match read {
        Ok(data) => text_from_bytes(data),
        Err(failure) => Err(failure),
    }
}

/// The fault of a template document without an `object` element.
pub open spec fn missing_object(tag: Seq<char>) -> Fault {
    Fault::Structure { tag, msg: "Expected an 'object' node in template, but none was found"@ }
}

/// The fault, if any, of the template document with the root `root`.
pub open spec fn template_fault(root: &Element) -> Option<Fault> {
    match first_tagged(root.children@, "object"@) {
        None => Some(missing_object(root.tag@)),
        Some(i) => fill_fault(&root.children@[i]),
    }
}

/// Whether `object` is the template that the document with the root `root`
/// holds: what its first `object` element describes.
pub open spec fn is_template_in(root: &Element, object: &Object) -> bool {
    match first_tagged(root.children@, "object"@) {
        None => false,
        Some(i) => is_template_of(&root.children@[i], object),
    }
}

/// Reads the template that a template document holds.
pub fn template_from_xml(root: &Element) -> (r: Result<Object, Error>)
    ensures
        match r {
            Ok(object) => template_fault(root) is None && is_template_in(root, &object),
            Err(e) => template_fault(root) == Some(e@),
        },
{
    match root.child("object") {
        Some(node) => Object::template_from_xml(node),
        None => Err(
            Error::StructureError {
                tag: root.tag.clone(),
                msg: String::from_str("Expected an 'object' node in template, but none was found"),
            },
        ),
    }
}

/// Reads the template that the text of a template document holds.
pub fn template_from_text(text: &str) -> (r: Result<Object, Error>)
    ensures
        match r {
            Ok(object) => match xml_document(text@) {
                Some(root) => template_fault(&root) is None && is_template_in(&root, &object),
                None => false,
            },
            Err(e) => match xml_document(text@) {
                Some(root) => template_fault(&root) == Some(e@),
                None => e@ == Fault::Parse,
            },
        },
{
    match Element::parse(text) {
        Ok(root) => template_from_xml(&root),
        Err(e) => Err(e),
    }
}

/// The images that were loaded, and the handle of each under its path.
struct ImageTable<I> {
    images: Vec<I>,
    paths: StringHashMap<ImageHandle>,
}

impl<I> ImageTable<I> {
    #[verifier::type_invariant]
    spec fn handles_in_table(self) -> bool {
        forall|path: Seq<char>|
            self.paths@.contains_key(path) ==> (#[trigger] self.paths@[path]).0 < self.images@.len()
    }

    fn new() -> (r: Self)
        ensures
            r.images@ == Seq::<I>::empty(),
            r.paths@ == Map::<Seq<char>, ImageHandle>::empty(),
    {
        Self { images: Vec::new(), paths: StringHashMap::new() }
    }

    /// The handle of the image that was loaded from `path`.
    fn find(&self, path: &str) -> (r: Option<ImageHandle>)
        ensures
            match r {
                Some(handle) => self.paths@.contains_key(path@) && self.paths@[path@] == handle
                    && handle.0 < self.images@.len(),
                None => !self.paths@.contains_key(path@),
            },
    {
        proof {
            use_type_invariant(self);
        }
        match self.paths.get(path) {
            Some(handle) => Some(*handle),
            None => None,
        }
    }

    /// Puts `image` at the end of the table, under `path`.
    fn add(&mut self, path: String, image: I) -> (handle: ImageHandle)
        ensures
            handle.0 == old(self).images@.len(),
            final(self).images@ == old(self).images@.push(image),
            final(self).paths@ == old(self).paths@.insert(path@, handle),
    {
        proof {
            use_type_invariant(&*self);
        }
        let mut images: Vec<I> = Vec::new();
        let mut paths: StringHashMap<ImageHandle> = StringHashMap::new();
        std::mem::swap(&mut paths, &mut self.paths);
        std::mem::swap(&mut images, &mut self.images);
        let handle = ImageHandle(images.len());
        images.push(image);
        paths.insert(path, handle);
        self.images = images;
        self.paths = paths;
        handle
    }
}

/// Loads and remembers the images and the templates that maps refer to.
/// `I` is the type of the images.
#[verifier::reject_recursive_types(I)]
pub struct ResourceManager<I> {
    base_path: String,
    image_loader: Box<dyn ImageLoader<I>>,
    file_provider: Box<dyn Provider>,
    table: ImageTable<I>,
    template_cache: StringHashMap<Object>,
}

/// What [`ResourceManager::load_image`] does: `after` and `result` are what
/// the call makes of the manager `before` and the path `path`.
///
/// An image that was loaded before is handed out again and the manager is
/// left as it was, its loader included. Otherwise the loader decides: on
/// success the image is put at the end of the table and remembered under
/// the resolved path, and on failure nothing changes but the loader.
pub open spec fn image_loaded<I>(
    before: &ResourceManager<I>,
    path: Seq<char>,
    after: &ResourceManager<I>,
    result: Result<ImageHandle, Error>,
) -> bool {
    let full = resolved(before.base(), path);
    &&& after.base() == before.base()
    &&& after.templates() == before.templates()
    &&& if before.image_paths().contains_key(full) {
        &&& result == Ok::<ImageHandle, Error>(before.image_paths()[full])
        &&& *after == *before
    } else {
        match result {
            Ok(handle) => {
                &&& handle.0 == before.images().len()
                &&& after.images().len() == before.images().len() + 1
                &&& after.images().take(handle.0 as int) == before.images()
                &&& after.image_paths() == before.image_paths().insert(full, handle)
            },
            Err(_) => after.images() == before.images() && after.image_paths()
                == before.image_paths(),
        }
    }
}

/// What [`ResourceManager::load_object_template`] does: `after` and `result`
/// are what the call makes of the manager `before` and the path `path`.
///
/// The result is a copy of the template that the manager holds under the
/// resolved path. A template that was loaded before is not loaded again,
/// and the manager is left as it was, its provider included. Otherwise the
/// provider decides what the document is: on success the template that it
/// holds is remembered under the resolved path.
pub open spec fn template_loaded<I>(
    before: &ResourceManager<I>,
    path: Seq<char>,
    after: &ResourceManager<I>,
    result: Result<Object, Error>,
) -> bool {
    let full = resolved(before.base(), path);
    &&& after.base() == before.base()
    &&& after.images() == before.images()
    &&& after.image_paths() == before.image_paths()
    &&& before.templates().contains_key(full) ==> *after == *before && result is Ok
    &&& match result {
        Ok(template) => {
            &&& after.templates().contains_key(full)
            &&& is_copy(&after.templates()[full], &template)
            &&& after.templates() == before.templates().insert(full, after.templates()[full])
            &&& before.templates().contains_key(full) || exists|text: Seq<char>|
                #![trigger xml_document(text)]
                xml_document(text) matches Some(root) && is_template_in(
                    &root,
                    &after.templates()[full],
                )
        },
        Err(_) => after.templates() == before.templates(),
    }
}

impl<I> ResourceManager<I> {
    /// The path that relative paths are joined to.
    pub closed spec fn base(&self) -> Seq<char> {
        self.base_path@
    }

    /// The table of the images that were loaded, in the order of loading.
    pub closed spec fn images(&self) -> Seq<I> {
        self.table.images@
    }

    /// The handles of the images that were loaded, under their resolved paths.
    pub closed spec fn image_paths(&self) -> Map<Seq<char>, ImageHandle> {
        self.table.paths@
    }

    /// The templates that were loaded, under their resolved paths.
    pub closed spec fn templates(&self) -> TemplateMap {
        self.template_cache@
    }

    /// Create a new resource manager with a given image loader and data provider.
    /// Defaults the base path to the current directory (`.`).
    pub fn new<L: ImageLoader<I> + 'static, P: Provider + 'static>(
        image_loader: L,
        file_provider: P,
    ) -> (r: Self)
        ensures
            r.base() == seq!['.'],
            r.images() == Seq::<I>::empty(),
            r.image_paths() == Map::<Seq<char>, ImageHandle>::empty(),
            r.templates() == TemplateMap::empty(),
    {
        proof {
            reveal_strlit(".");
        }
        let base_path = String::from_str(".");
        assert(base_path@ =~= seq!['.']);
        Self {
            base_path,
            image_loader: Box::new(image_loader),
            file_provider: Box::new(file_provider),
            table: ImageTable::new(),
            template_cache: StringHashMap::new(),
        }
    }

    /// The image with the given handle, if this manager has loaded one.
    pub fn image(&self, handle: ImageHandle) -> (r: Option<&I>)
        ensures
            match r {
                Some(image) => handle.0 < self.images().len() && *image
                    == self.images()[handle.0 as int],
                None => handle.0 >= self.images().len(),
            },
    {
        if handle.0 < self.table.images.len() {
            Some(&self.table.images[handle.0])
        } else {
            None
        }
    }

    /// The image at `path` below the base path. It is loaded the first time
    /// that it is asked for.
    pub fn load_image(&mut self, path: &str) -> (r: Result<ImageHandle, Error>)
        ensures
            image_loaded(old(self), path@, final(self), r),
            r matches Ok(handle) ==> handle.0 < final(self).images().len(),
    {
        let full = resolve(self.base_path.as_str(), path);
        match self.table.find(full.as_str()) {
            Some(handle) => {
                return Ok(handle);
            },
            None => {},
        }
        let image = match self.image_loader.load(full.as_str()) {
            Ok(image) => image,
            Err(e) => {
                return Err(e);
            },
        };
        let ghost before = self.table.images@;
        let handle = self.table.add(full, image);
        assert(self.table.images@.take(handle.0 as int) =~= before);
        Ok(handle)
    }

    /// A copy of the template in the document at `relpath` below the base
    /// path. The document is loaded the first time that it is asked for.
    pub fn load_object_template(&mut self, relpath: &str) -> (r: Result<Object, Error>)
        ensures
            template_loaded(old(self), relpath@, final(self), r),
    {
        let full = resolve(self.base_path.as_str(), relpath);
        match self.template_cache.get(full.as_str()) {
            Some(template) => {
                let copy = template.clone();
                assert(self.template_cache@ =~= self.template_cache@.insert(
                    full@,
                    self.template_cache@[full@],
                ));
                return Ok(copy);
            },
            None => {},
        }
        let text = match self.load_text(relpath) {
            Ok(text) => text,
            Err(e) => {
                return Err(e);
            },
        };
        let template = match template_from_text(text.as_str()) {
            Ok(object) => object,
            Err(e) => {
                return Err(e);
            },
        };
        let result = template.clone();
        self.template_cache.insert(full, template);
        Ok(result)
    }

    /// The text of the file at `path` below the base path: what
    /// [`text_from_read`] makes of what the provider reads for the base path
    /// and `path`. Nothing of the manager changes but the provider.
    pub fn load_text(&mut self, path: &str) -> (r: Result<String, Error>)
        ensures
            final(self).base() == old(self).base(),
            final(self).images() == old(self).images(),
            final(self).image_paths() == old(self).image_paths(),
            final(self).templates() == old(self).templates(),
    {
        text_from_read(self.file_provider.read(self.base_path.as_str(), path))
    }

    /// The templates that were loaded, under the paths that objects give:
    /// those below the base path.
    pub open spec fn known_templates(&self) -> TemplateMap {
        templates_under(self.base(), self.templates())
    }

    /// The templates that were loaded, for looking them up.
    pub fn loaded_templates(&self) -> (r: Templates<'_>)
        ensures
            r@ == self.known_templates(),
    {
        Templates::of(self.base_path.as_str(), &self.template_cache)
    }

    /// Get a reference to the resource manager's base path.
    pub fn base_path(&self) -> (r: &str)
        ensures
            r@ == self.base(),
    {
        self.base_path.as_str()
    }

    /// Set the resource manager's base path.
    pub fn set_base_path(&mut self, base_path: String)
        ensures
            final(self).base() == base_path@,
            final(self).images() == old(self).images(),
            final(self).image_paths() == old(self).image_paths(),
            final(self).templates() == old(self).templates(),
    {
        self.base_path = base_path;
    }
}

/// Loading an image is memoized: once `path` has been loaded, asking for it
/// again gives the same handle, and with it the same image, and leaves the
/// manager as it is, so that the loader is not asked again.
pub proof fn lemma_image_memoized<I>(
    start: &ResourceManager<I>,
    loaded: &ResourceManager<I>,
    again: &ResourceManager<I>,
    path: Seq<char>,
    first: ImageHandle,
    second: Result<ImageHandle, Error>,
)
    requires
        image_loaded(start, path, loaded, Ok(first)),
        image_loaded(loaded, path, again, second),
    ensures
        second == Ok::<ImageHandle, Error>(first),
        *again == *loaded,
{
}

/// Loading a template is memoized in the same way: asking again gives
/// another copy of the template that the manager holds, and leaves the
/// manager as it is, so that the provider is not asked again.
pub proof fn lemma_template_memoized<I>(
    start: &ResourceManager<I>,
    loaded: &ResourceManager<I>,
    again: &ResourceManager<I>,
    path: Seq<char>,
    first: Object,
    second: Result<Object, Error>,
)
    requires
        template_loaded(start, path, loaded, Ok(first)),
        template_loaded(loaded, path, again, second),
    ensures
        *again == *loaded,
        loaded.templates().contains_key(resolved(loaded.base(), path)),
        is_copy(&loaded.templates()[resolved(loaded.base(), path)], &first),
        match second {
            Ok(template) => is_copy(
                &loaded.templates()[resolved(loaded.base(), path)],
                &template,
            ),
            Err(_) => false,
        },
{
}

} // verus!

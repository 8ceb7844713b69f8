use crate::compact::CompactId;
use crate::errors::{Error, Result};
use crate::exguid::ExGuid;
use crate::file_node::{declaration_of, FileNodeData, FileNodeDataIterator, ObjectDeclaration};
use crate::guid::Guid;
use crate::onestore::{empty_prop_set_model, FileBlobModel, ObjectModel, ObjectPropSet};
use crate::parse_context::{file_reference_spec, ParseContext};
use vstd::prelude::*;

verus! {

/// The object that `decl` declares in the object space `context_id`, given
/// the files of the file data store, or the error of loading its data.
pub open spec fn declared_object_spec(
    decl: ObjectDeclaration,
    context_id: ExGuid,
    store: Option<Seq<(Guid, FileBlobModel)>>,
) -> Result<ObjectModel> {
    let props = match decl.props {
        Some(p) => p@,
        None => empty_prop_set_model(),
    };
    match decl.attachment {
        None => Ok(ObjectModel { context_id, jc_id: decl.jcid, props, file_data: None }),
        Some(info) => match file_reference_spec(info.data_ref@, store) {
            Ok(b) => Ok(ObjectModel { context_id, jc_id: decl.jcid, props, file_data: Some(b) }),
            Err(e) => Err(e),
        },
    }
}

/// An object read from its declaration, with the compact ID that names it
/// in its global identification table.
#[derive(Debug)]
pub struct Object {
    pub data: crate::onestore::Object,
    pub compact_id: CompactId,
}

impl Object {
    /// Reads the object that the node under the cursor declares, moving
    /// past it; leaves the cursor where it is if the node declares none.
    pub fn try_parse(iterator: &mut FileNodeDataIterator, context: &ParseContext) -> (r: Result<
        Option<Object>,
    >)
        requires
            old(iterator).wf(),
        ensures
            final(iterator).wf(),
            final(iterator).nodes() == old(iterator).nodes(),
            match old(iterator).spec_peek() {
                Some(n) if declaration_of(n) is Some => match declared_object_spec(
                    declaration_of(n)->0,
                    context.context_id,
                    context.store_view(),
                ) {
                    Ok(m) => r matches Ok(Some(o)) && o.data@ == m && o.compact_id == declaration_of(
                        n,
                    )->0.oid && final(iterator).index() == old(iterator).index() + 1,
                    Err(e) => r == Err::<Option<Object>, Error>(e),
                },
                _ => r matches Ok(None) && final(iterator).index() == old(iterator).index(),
            },
    {
        let decl = match iterator.peek() {
            Some(FileNodeData::ObjectDeclaration2RefCountFND(d)) => d,
            Some(FileNodeData::ObjectDeclaration2LargeRefCountFND(d)) => d,
            Some(FileNodeData::ReadOnlyObjectDeclaration2RefCountFND(d)) => d,
            Some(FileNodeData::ReadOnlyObjectDeclaration2LargeRefCountFND(d)) => d,
            Some(FileNodeData::ObjectDeclarationFileData3RefCountFND(d)) => d,
            Some(FileNodeData::ObjectDeclarationFileData3LargeRefCountFND(d)) => d,
            Some(FileNodeData::ObjectDeclarationWithRefCountFNDX(d)) => d,
            _ => {
                return Ok(None);
            },
        };
        let object = Object::parse_from_declaration(decl, context)?;
        iterator.next();
        Ok(Some(object))
    }

    /// The object that `declaration` declares.
    pub fn parse_from_declaration(declaration: &ObjectDeclaration, context: &ParseContext) -> (r:
        Result<Object>)
        ensures
            match declared_object_spec(*declaration, context.context_id, context.store_view()) {
                Ok(m) => r matches Ok(o) && o.data@ == m && o.compact_id == declaration.oid,
                Err(e) => r == Err::<Object, Error>(e),
            },
    {
        let props = match &declaration.props {
            Some(p) => p.duplicate(),
            None => ObjectPropSet::new_empty(),
        };
        let file_data = match &declaration.attachment {
            Some(info) => Some(context.find_file_data(info)?),
            None => None,
        };
        let data = crate::onestore::Object {
            context_id: context.context_id,
            jc_id: declaration.id(),
            props,
            file_data,
        };
        Ok(Object { data, compact_id: declaration.compact_id() })
    }
}

} // verus!

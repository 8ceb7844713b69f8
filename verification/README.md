# onenote_parser

A reader for OneNote files whose decoding logic is verified with Verus.

- `src/` is the library. Every decoder states in its contract the bytes or
  file nodes it accepts, the value it produces and the error it returns
  otherwise. The binary layers covered are the little-endian reader, GUIDs
  and extended GUIDs, compact integers and IDs, properties and property
  sets, the OneStore file nodes (single nodes and file node list fragments
  read from bytes, global identification tables, object
  groups, revisions and revision manifest lists, object spaces, the root
  file node list and the file data store), the FSSHTTPB mapping table, the
  file header and the detection of the packaging format, the table of
  contents order and the entries a notebook keeps, the section entry paths,
  the hyperlinks of rich text, and which of its runs hold math or embedded
  ink and which object each embedded ink object refers to.

  One limit holds at the byte level: a file node that refers to a list of
  nodes, or that carries its data (a property set, a stored file, a list)
  in a chunk elsewhere in the file, is refused with `UnresolvedNodeData`
  once its chunk reference is read. The layers above take such lists as
  `FileNodeList` values; nothing in `src/` builds them from the bytes of a
  whole file yet.
- `tests/` exercises the library on concrete inputs.
- `app/` holds what touches the file system: the `FileSystem` trait, the
  host implementation, and the parser front end that resolves section
  entries inside a notebook's directory.

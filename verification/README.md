# bevy_simplesave

Saves Bevy resources to `.ron` files and loads them back, one resource per file
or several resources bundled into one file (a save group).

The library in `src/` holds the rules, each with a contract proved by Verus:

- `location`: where a save file lives (`SaveLocation`), the sub-path rule (no
  root, no drive prefix, no `..`), and how a sub path is joined to a directory,
  both under the path conventions (`PathStyle`) of the platform that `app/` runs on;
- `registry`: what registration records: each resource's save path (latest wins),
  which resources save automatically (installed once), and the members of each
  group (in registration order, each once);
- `group`: building a group file from its members and reading it back, member by
  member;
- `resource`: reading a single resource's file and what to do after a load;
- `save_attribute`: how `#[save(timing = auto | manual)]` is read;
- `error`: the errors and their messages;
- `ron_codec`: the calls into `ron` and `String::from_utf8`;
- `laws`: properties of several operations together, among them the group
  round trip (a group saved and loaded again gives every member its value back).

`app/` is the Bevy plugin around it: the `App` extensions, the systems, the
messages, and the file system (an atomic write through a temporary file).

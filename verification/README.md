# utopia_server

The rules of a knowledge-platform server, verified with Verus: how text is
cut, named and cited; which tools a chat turn offers and which calls it runs;
what the read tools answer; how a fetch decides which addresses it may reach;
how ingested items and feed entries become documents; how passwords are hashed
and checked and which session token a request carries; how
account, review and ontology requests are checked; and the ontology lists an extraction prompt carries.

- `src/` is the verified library. Each public function states in `ensures`
  what it returns; the laws that relate several functions are public proof
  functions named `law_*`.
- `tests/` runs the library on concrete values.
- `app/` is the command line around it: the tool list as JSON, the manual's
  sections, the guarded fetch over the network (its hop decisions are the
  library's), and the random salt a new password is hashed under.

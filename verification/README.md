# rose_offline

The game rules of a ROSE Online server, written in Verus and proved against
their contracts. The library decides; the server around it carries out what
was decided (entities, messages, files). It holds:

- quest triggers: each condition and reward, with the game data's answers
  named as functions of the questions asked, and one trigger run in full
  (its conditions, then its rewards); following a chain of triggers by name
  is in `app/`, since such a chain may never end;
- ability value changes and what the client is told of them, parties, clans
  (founding checks, the founder's record, the refund, skill lists), loot
  sharing (who picks up, the even money split), item equipping, banks and
  stores (including an NPC store's checks);
- damage bookkeeping, experience and levels, a dying NPC's once-only death
  handling and who earns experience and the drop, monster spawn tactics, the
  steps of an entity's commands, revive and logout rules, NPC AI conditions
  and the commands its actions give;
- chat and GM command lines: reading them into actions, and what the
  actions do (help, the level command's experience, who a damage command
  hits, teleports to zones not in play); actions whose work is game data or
  entities are handed to the caller;
- the login and server lists and tokens, and the storage plans for
  characters, banks and clans.

Layout:

- `src/` — the verified library, one module per area of the rules. Each
  public function states in `ensures` what it returns or changes; the
  `law_*` proof functions state properties that span several calls.
- `tests/` — tests on concrete values, run against the compiled library.
- `app/` — the edges the rules do not reach: files on disk (temporary file
  then rename, whether a record exists), JSON records of banks and clans,
  the local clock, reading chat lines and founding clans with the rules,
  following quest trigger chains, and the floating point geometry
  (distances, ranges, move destinations) the rules read as whole numbers
  and yes-or-no answers.

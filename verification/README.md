# kg_extract

Knowledge graphs out of texts: what is asked of a language model, how its answers are
read, and how what was read becomes one graph.

* `src/` is the library, in Verus. Every function states what it returns; the functions
  named `law_…` state what holds of several of them together.
  * `types`, `table`, `names`, `json`, `fraction`, `range`: the data.
  * `text`, `number`, `pattern`, `seqs`: texts and sequences.
  * `chunking`, `citation`: pieces of a text, and where they stand in it.
  * `graph_build`, `merger`, `coref`, `community`, `graph_output`, `ladybug_export`: graphs.
  * `parser`, `extractor`: questions and answers, by engine. A conversation is a state:
    the library gives the next question and takes in the answer.
  * `backend`: messages, and what the programs of agents print.
  * `mcp`: a store of graphs that is changed one operation at a time.
  * `cli`: the settings of the program.
* `app/` is the program around it: the command line, files, processes and the server.
* `tests/` runs the library.

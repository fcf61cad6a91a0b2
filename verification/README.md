# sarusctl

Turning an environment definition file (EDF) into a running container.

`sarusctl` validates and renders environment definitions, pulls and migrates the images that they
need, and runs them with Podman from the read-only imagestore of Parallax. Kubernetes manifests are
run the same way.

## Layout

* `src/` is the library, written in Verus: every function has a contract, and the contracts are
  proved.
  * `text`, `json`, `error`, `output`, `command`, `config`, `context`, `podman`, `logging`, `user`: values,
    messages, and what the answers of Podman mean.
  * `manifest`: Kubernetes manifests.
  * `deps`: what a command needs from its surroundings, as traits that promise nothing.
  * `trace`, `session`: the calls of a command, and the record of them.
  * `loading`, `imagestore`, `images`, `cleanup`, `run`, `execute`: the commands. What each of them
    calls, and what it results in, is a function of the answers that it gets; these functions end
    in `_replay`.
  * `laws`, `predictable`: what holds of every execution. `steps` and `shapes` hold the lemmas.
* `app/` is the program around the library: the command line, logging, the file system, and the
  libraries that read environment definitions and drive Podman.
* `tests/` runs the library in surroundings that are played by fakes.

## What is proved

* A container or a pod runs only from images that were found in the imagestore; only missing images
  are pulled.
* A container is cleaned up after its run, and a pod is taken down by force, whatever came of them.
* Only the directories of the run itself are ever removed, and only after its workload was cleaned
  up. A run that ends well without a warning leaves none of them behind.
* An outcome that was written as JSON is what a reader of the text gets.
* The removal of those directories is given up, with a warning, only when they were still there
  after five seconds.
* The exit code of the container is the exit code of the run.
* The options of an invocation reach every call.
* The same answers lead to the same calls and to the same result.

What is trusted is marked as such beside the calls into other libraries: the YAML reader, the JSON
writer, UUIDs, the user database, and a few functions of the standard library.

# stella

A desktop companion that keeps the GNOME wallpaper in step with the time of
day (day 06.00–18.00 at UTC+4), the outside temperature (hot above 22 °C,
read from an AccuWeather daily forecast) and whether headphones are plugged in.

- `src/` is the verified library: the watch loop's decisions
  (`wallpaper_changer`), exact reading of decimal temperature text
  (`decimal`, `digits`), lookups in a JSON forecast (`json`), the headphone
  and Bluetooth readings (`wallpaper_changer::devices`, `ble_device`), and the
  sound-card jack report (`headphones_jack`).
- `app/` runs the loop: it reads the sound card and Bluetooth, asks the weather
  service, parses its JSON, sets the wallpaper with `gsettings` and shows a
  notification when the loop ends.
